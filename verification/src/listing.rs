//! The listing builder: the entries of the storage directory, parted into
//! attachments and metadata records, as data and as the two fragments of
//! the administrative view.
//!
//! Entries are listed in the order in which the caller names them. A
//! sidecar that cannot be read as a metadata record is passed over: it
//! gives no card and does not end the listing.

use crate::metadata::{parse_record, MetadataError, MetadataRecord, RecordView};
use crate::storage::{
    classify_entry, download_link, entry_kind, is_metadata_name, link_of, EntryKind,
};
use vstd::prelude::*;
use vstd::string::StringExecFns;

verus! {

/// The strings of a vector, each as a sequence of characters.
pub open spec fn strings_of(v: Seq<String>) -> Seq<Seq<char>> {
    Seq::new(v.len(), |i: int| v[i]@)
}

/// The records of a vector, each by its view.
pub open spec fn records_of(v: Seq<MetadataRecord>) -> Seq<RecordView> {
    Seq::new(v.len(), |i: int| v[i]@)
}

/// The entries of the kind `kind` among `names`, in the order of `names`.
pub open spec fn entries_of_kind(names: Seq<Seq<char>>, kind: EntryKind) -> Seq<Seq<char>> {
    names.filter(|name: Seq<char>| entry_kind(name) == kind)
}

/// The record that a sidecar text stands for, if it stands for one.
pub open spec fn card_of(text: Seq<char>) -> Option<RecordView> {
    match parse_record(text) {
        Ok(record) => Some(record),
        Err(_) => None,
    }
}

/// The records that the texts stand for, in the order of the texts; a text
/// that stands for none is passed over.
pub open spec fn cards_of(texts: Seq<Seq<char>>) -> Seq<RecordView> {
    texts.filter_map(|text: Seq<char>| card_of(text))
}

/// One attachment in the administrative view: its name and the link under
/// which it is downloaded.
pub open spec fn attachment_item(name: Seq<char>) -> Seq<char> {
    "<li>"@ + name + "     <a href=\""@ + link_of(name) + "\">Download</a></li>"@
}

/// One metadata record in the administrative view.
pub open spec fn record_card(r: RecordView) -> Seq<char> {
    "<div style = \"margin: 12px; padding: 16px; background-color: cyan; \"><h3>FROM: </h3>"@
        + r.name + "<br><h3>EMAIL: </h3>"@ + r.email + "<br><br><h3>PHONE: </h3>"@ + r.phone
        + "</div>"@
}

/// The items of the attachments `names`, one behind the other.
pub open spec fn items_of(names: Seq<Seq<char>>) -> Seq<char>
    decreases names.len(),
{
    if names.len() == 0 {
        Seq::empty()
    } else {
        items_of(names.drop_last()) + attachment_item(names.last())
    }
}

/// The cards of the records `records`, one behind the other.
pub open spec fn cards_text_of(records: Seq<RecordView>) -> Seq<char>
    decreases records.len(),
{
    if records.len() == 0 {
        Seq::empty()
    } else {
        cards_text_of(records.drop_last()) + record_card(records.last())
    }
}

/// The fragment that lists the attachments among the entries `names`.
pub open spec fn ftp_view_of(names: Seq<Seq<char>>) -> Seq<char> {
    items_of(entries_of_kind(names, EntryKind::Attachment))
}

/// The fragment that shows the records that the sidecar texts stand for.
pub open spec fn email_view_of(texts: Seq<Seq<char>>) -> Seq<char> {
    cards_text_of(cards_of(texts))
}

/// The entries of the kind `kind` among `names`, in the order of `names`.
pub fn entries(names: &Vec<String>, kind: EntryKind) -> (found: Vec<String>)
    ensures
        strings_of(found@) == entries_of_kind(strings_of(names@), kind),
{
    let ghost all = strings_of(names@);
    let mut found: Vec<String> = Vec::new();
    let mut i: usize = 0;
    proof {
        reveal(Seq::filter);
        assert(strings_of(found@) == Seq::<Seq<char>>::empty());
    }
    while i < names.len()
        invariant
            i <= names.len(),
            all == strings_of(names@),
            strings_of(found@) == entries_of_kind(all.take(i as int), kind),
        decreases names.len() - i,
    {
        proof {
            reveal(Seq::filter);
            assert(all.take(i + 1).drop_last() == all.take(i as int));
            assert(all.take(i + 1).last() == names@[i as int]@);
        }
        if classify_entry(names[i].as_str()) == kind {
            let ghost before = strings_of(found@);
            found.push(names[i].clone());
            assert(strings_of(found@) == before.push(names@[i as int]@));
        }
        i += 1;
    }
    assert(all.take(names.len() as int) == all);
    found
}

/// `result` is what the text `text` stands for: the record, or the reason
/// why it stands for none.
pub open spec fn is_reading_of(
    result: Result<MetadataRecord, MetadataError>,
    text: Seq<char>,
) -> bool {
    match parse_record(text) {
        Ok(record) => result matches Ok(read) && read@ == record,
        Err(reason) => result matches Err(given) && given == reason,
    }
}

/// Reads every sidecar text on its own: one result for each text, in the
/// order of the texts, which is the record or the reason why the text
/// stands for none. One text that cannot be read does not touch the others.
pub fn read_sidecars(texts: &Vec<String>) -> (results: Vec<Result<MetadataRecord, MetadataError>>)
    ensures
        results.len() == texts.len(),
        forall|i: int| 0 <= i < texts.len() ==> is_reading_of(#[trigger] results@[i], texts@[i]@),
{
    let mut results: Vec<Result<MetadataRecord, MetadataError>> = Vec::new();
    let mut i: usize = 0;
    while i < texts.len()
        invariant
            i <= texts.len(),
            results.len() == i,
            forall|k: int| 0 <= k < i ==> is_reading_of(#[trigger] results@[k], texts@[k]@),
        decreases texts.len() - i,
    {
        results.push(MetadataRecord::from_json(texts[i].as_str()));
        i += 1;
    }
    results
}

/// The records that the sidecar texts stand for, in the order of the
/// texts; a text that stands for none is passed over.
pub fn metadata_cards(texts: &Vec<String>) -> (cards: Vec<MetadataRecord>)
    ensures
        records_of(cards@) == cards_of(strings_of(texts@)),
{
    let ghost all = strings_of(texts@);
    let mut cards: Vec<MetadataRecord> = Vec::new();
    let mut i: usize = 0;
    assert(records_of(cards@) == Seq::<RecordView>::empty());
    while i < texts.len()
        invariant
            i <= texts.len(),
            all == strings_of(texts@),
            records_of(cards@) == cards_of(all.take(i as int)),
        decreases texts.len() - i,
    {
        proof {
            assert(all.take(i + 1).drop_last() == all.take(i as int));
            assert(all.take(i + 1).last() == texts@[i as int]@);
        }
        match MetadataRecord::from_json(texts[i].as_str()) {
            Ok(record) => {
                let ghost before = records_of(cards@);
                let ghost view = record@;
                cards.push(record);
                assert(records_of(cards@) == before + seq![view]);
            },
            Err(_) => {},
        }
        i += 1;
    }
    assert(all.take(texts.len() as int) == all);
    cards
}

/// Appends the item of the attachment `name` to `view`.
fn append_item(view: &mut String, name: &str)
    ensures
        final(view)@ == old(view)@ + attachment_item(name@),
{
    let link = download_link(name);
    view.append("<li>");
    view.append(name);
    view.append("     <a href=\"");
    view.append(link.as_str());
    view.append("\">Download</a></li>");
}

/// Appends the card of `record` to `view`.
fn append_card(view: &mut String, record: &MetadataRecord)
    ensures
        final(view)@ == old(view)@ + record_card(record@),
{
    view.append(
        "<div style = \"margin: 12px; padding: 16px; background-color: cyan; \"><h3>FROM: </h3>",
    );
    view.append(record.name.as_str());
    view.append("<br><h3>EMAIL: </h3>");
    view.append(record.email.as_str());
    view.append("<br><br><h3>PHONE: </h3>");
    view.append(record.phone.as_str());
    view.append("</div>");
}

/// The fragment that lists the attachments among the entries `names`, each
/// with its name and its download link. Names are written as they are.
pub fn get_ftp_view(names: &Vec<String>) -> (view: String)
    ensures
        view@ == ftp_view_of(strings_of(names@)),
{
    let shown = entries(names, EntryKind::Attachment);
    let ghost all = strings_of(shown@);
    let mut view = String::new();
    let mut i: usize = 0;
    while i < shown.len()
        invariant
            i <= shown.len(),
            all == strings_of(shown@),
            view@ == items_of(all.take(i as int)),
        decreases shown.len() - i,
    {
        proof {
            assert(all.take(i + 1).drop_last() == all.take(i as int));
            assert(all.take(i + 1).last() == shown@[i as int]@);
        }
        append_item(&mut view, shown[i].as_str());
        i += 1;
    }
    assert(all.take(shown.len() as int) == all);
    view
}

/// The fragment that shows one card for each sidecar text that stands for
/// a metadata record. Fields are written as they are.
pub fn get_email_view(texts: &Vec<String>) -> (view: String)
    ensures
        view@ == email_view_of(strings_of(texts@)),
{
    let cards = metadata_cards(texts);
    let ghost all = records_of(cards@);
    let mut view = String::new();
    let mut i: usize = 0;
    while i < cards.len()
        invariant
            i <= cards.len(),
            all == records_of(cards@),
            view@ == cards_text_of(all.take(i as int)),
        decreases cards.len() - i,
    {
        proof {
            assert(all.take(i + 1).drop_last() == all.take(i as int));
            assert(all.take(i + 1).last() == cards@[i as int]@);
        }
        append_card(&mut view, &cards[i]);
        i += 1;
    }
    assert(all.take(cards.len() as int) == all);
    view
}

/// The two kinds part the listing exactly: every entry is an attachment or
/// a sidecar and never both, so the two lists together are as long as the
/// listing, an entry with the reserved suffix is never among the
/// attachments, and an entry without it is never among the sidecars.
pub proof fn lemma_listing_is_parted(names: Seq<Seq<char>>)
    ensures
        entries_of_kind(names, EntryKind::Attachment).len() + entries_of_kind(
            names,
            EntryKind::Metadata,
        ).len() == names.len(),
        forall|name: Seq<char>|
            entries_of_kind(names, EntryKind::Attachment).contains(name) <==> names.contains(name)
                && !is_metadata_name(name),
        forall|name: Seq<char>|
            entries_of_kind(names, EntryKind::Metadata).contains(name) <==> names.contains(name)
                && is_metadata_name(name),
    decreases names.len(),
{
    reveal(Seq::filter);
    let files = entries_of_kind(names, EntryKind::Attachment);
    let cars = entries_of_kind(names, EntryKind::Metadata);
    if names.len() > 0 {
        let rest = names.drop_last();
        let last = names.last();
        lemma_listing_is_parted(rest);
        let rest_files = entries_of_kind(rest, EntryKind::Attachment);
        let rest_cars = entries_of_kind(rest, EntryKind::Metadata);
        assert(names == rest.push(last));
        assert forall|name: Seq<char>| files.contains(name) <==> names.contains(name)
            && !is_metadata_name(name) by {
            lemma_contains_after_push(rest, last, name);
            lemma_contains_after_push(rest_files, last, name);
        }
        assert forall|name: Seq<char>| cars.contains(name) <==> names.contains(name)
            && is_metadata_name(name) by {
            lemma_contains_after_push(rest, last, name);
            lemma_contains_after_push(rest_cars, last, name);
        }
    } else {
        assert forall|name: Seq<char>| !names.contains(name) by {}
    }
}

/// What a list holds after one more element was put behind it.
proof fn lemma_contains_after_push(s: Seq<Seq<char>>, last: Seq<char>, x: Seq<char>)
    ensures
        s.push(last).contains(x) <==> s.contains(x) || x == last,
{
    if s.contains(x) {
        let k = choose|k: int| 0 <= k < s.len() && s[k] == x;
        assert(s.push(last)[k] == x);
    }
    if x == last {
        assert(s.push(last)[s.len() as int] == x);
    }
}

} // verus!
