//! The metadata record of one submission and its text form, the sidecar
//! that is stored beside the attachment.

use crate::json::{
    lemma_parse_written_member, members_of, parse_member, parse_more_members, parse_object, quote,
    read_object, skip_spaces, with_members, write_quoted,
};
use crate::text::{chars_of, extend_chars, same_chars, string_of};
use vstd::prelude::*;

verus! {

/// What one submission says of its sender. The three fields are free-form:
/// nothing is checked or trimmed.
#[derive(Debug, PartialEq, Eq)]
pub struct MetadataRecord {
    pub name: String,
    pub email: String,
    pub phone: String,
}

/// A metadata record as three character sequences.
pub ghost struct RecordView {
    pub name: Seq<char>,
    pub email: Seq<char>,
    pub phone: Seq<char>,
}

impl View for MetadataRecord {
    type V = RecordView;

    open spec fn view(&self) -> RecordView {
        RecordView { name: self.name@, email: self.email@, phone: self.phone@ }
    }
}

/// Why a text is no metadata record.
#[derive(Debug, PartialEq, Eq, Structural, Clone, Copy)]
pub enum MetadataError {
    /// The text is not one flat object of strings.
    Malformed,
    /// One of the three fields is not there.
    MissingField,
    /// One of the three fields is there more than once.
    RepeatedField,
}

/// The key of the sender's name.
pub open spec fn name_key() -> Seq<char> {
    seq!['n', 'a', 'm', 'e']
}

/// The key of the sender's e-mail address.
pub open spec fn email_key() -> Seq<char> {
    seq!['e', 'm', 'a', 'i', 'l']
}

/// The key of the sender's telephone number.
pub open spec fn phone_key() -> Seq<char> {
    seq!['p', 'h', 'o', 'n', 'e']
}

/// One member as it is written: the quoted key, a colon, the quoted value.
pub open spec fn member_text(key: Seq<char>, value: Seq<char>) -> Seq<char> {
    quote(key) + seq![':'] + quote(value)
}

/// What is written behind the member `email`: a comma, the member `phone`
/// and the closing brace.
pub open spec fn text_after_email(r: RecordView) -> Seq<char> {
    seq![','] + member_text(phone_key(), r.phone) + seq!['}']
}

/// What is written behind the member `name`: a comma, the member `email`
/// and what follows it.
pub open spec fn text_after_name(r: RecordView) -> Seq<char> {
    seq![','] + member_text(email_key(), r.email) + text_after_email(r)
}

/// The text form of a record: one object with the members `name`, `email`
/// and `phone`, in this order, with no space anywhere between the tokens.
pub open spec fn record_text(r: RecordView) -> Seq<char> {
    seq!['{'] + member_text(name_key(), r.name) + text_after_name(r)
}

/// How many of the members have the key `key`.
pub open spec fn count_key(ms: Seq<(Seq<char>, Seq<char>)>, key: Seq<char>) -> nat
    decreases ms.len(),
{
    if ms.len() == 0 {
        0
    } else {
        count_key(ms.drop_last(), key) + if ms.last().0 == key {
            1nat
        } else {
            0nat
        }
    }
}

/// The value of the last member with the key `key`; the empty string where
/// there is none.
pub open spec fn value_of(ms: Seq<(Seq<char>, Seq<char>)>, key: Seq<char>) -> Seq<char>
    decreases ms.len(),
{
    if ms.len() == 0 {
        Seq::empty()
    } else if ms.last().0 == key {
        ms.last().1
    } else {
        value_of(ms.drop_last(), key)
    }
}

/// The record that a list of members stands for. Each of the three fields
/// must be there exactly once; the order does not count, and members with
/// other keys are passed over. When several fields are at fault, the first
/// of `name`, `email`, `phone` decides the error.
pub open spec fn record_of_members(ms: Seq<(Seq<char>, Seq<char>)>) -> Result<
    RecordView,
    MetadataError,
> {
    if count_key(ms, name_key()) == 0 {
        Err(MetadataError::MissingField)
    } else if count_key(ms, name_key()) > 1 {
        Err(MetadataError::RepeatedField)
    } else if count_key(ms, email_key()) == 0 {
        Err(MetadataError::MissingField)
    } else if count_key(ms, email_key()) > 1 {
        Err(MetadataError::RepeatedField)
    } else if count_key(ms, phone_key()) == 0 {
        Err(MetadataError::MissingField)
    } else if count_key(ms, phone_key()) > 1 {
        Err(MetadataError::RepeatedField)
    } else {
        Ok(
            RecordView {
                name: value_of(ms, name_key()),
                email: value_of(ms, email_key()),
                phone: value_of(ms, phone_key()),
            },
        )
    }
}

/// The record that a text stands for.
pub open spec fn parse_record(text: Seq<char>) -> Result<RecordView, MetadataError> {
    match parse_object(text) {
        None => Err(MetadataError::Malformed),
        Some(ms) => record_of_members(ms),
    }
}

/// The key of the sender's name, as characters.
pub fn name_key_chars() -> (k: Vec<char>)
    ensures
        k@ == name_key(),
{
    let mut k: Vec<char> = Vec::new();
    k.push('n');
    k.push('a');
    k.push('m');
    k.push('e');
    k
}

/// The key of the sender's e-mail address, as characters.
pub fn email_key_chars() -> (k: Vec<char>)
    ensures
        k@ == email_key(),
{
    let mut k: Vec<char> = Vec::new();
    k.push('e');
    k.push('m');
    k.push('a');
    k.push('i');
    k.push('l');
    k
}

/// The key of the sender's telephone number, as characters.
pub fn phone_key_chars() -> (k: Vec<char>)
    ensures
        k@ == phone_key(),
{
    let mut k: Vec<char> = Vec::new();
    k.push('p');
    k.push('h');
    k.push('o');
    k.push('n');
    k.push('e');
    k
}

/// Appends one member to `out`: the quoted key, a colon, the quoted value.
fn write_member(out: &mut Vec<char>, key: &Vec<char>, value: &str)
    ensures
        final(out)@ == old(out)@ + member_text(key@, value@),
{
    let ghost before = out@;
    let value_chars = chars_of(value);
    write_quoted(out, key);
    out.push(':');
    write_quoted(out, &value_chars);
    assert(out@ == before + member_text(key@, value@));
}

/// Counts the members with the key `key`, and copies the value of the last
/// of them.
fn find_field(ms: &Vec<(Vec<char>, Vec<char>)>, key: &Vec<char>) -> (r: (usize, Vec<char>))
    ensures
        r.0 == count_key(members_of(ms@), key@),
        r.1@ == value_of(members_of(ms@), key@),
{
    let ghost all = members_of(ms@);
    let mut count: usize = 0;
    let mut value: Vec<char> = Vec::new();
    let mut i: usize = 0;
    while i < ms.len()
        invariant
            i <= ms.len(),
            all == members_of(ms@),
            count == count_key(all.take(i as int), key@),
            count <= i,
            value@ == value_of(all.take(i as int), key@),
        decreases ms.len() - i,
    {
        proof {
            assert(all.take(i + 1).drop_last() == all.take(i as int));
            assert(all.take(i + 1).last() == all[i as int]);
            assert(all[i as int].0 == ms@[i as int].0@);
        }
        if same_chars(&ms[i].0, key) {
            count += 1;
            value = Vec::new();
            extend_chars(&mut value, &ms[i].1);
            assert(value@ == ms@[i as int].1@);
        }
        i += 1;
    }
    assert(all.take(ms.len() as int) == all);
    (count, value)
}

impl MetadataRecord {
    /// The record with the three fields as given.
    pub fn new(name: String, email: String, phone: String) -> (r: MetadataRecord)
        ensures
            r@ == (RecordView { name: name@, email: email@, phone: phone@ }),
    {
        MetadataRecord { name, email, phone }
    }

    /// The record with three empty fields, as it stands before any field of
    /// a submission was read.
    pub fn empty() -> (r: MetadataRecord)
        ensures
            r@ == (RecordView { name: Seq::empty(), email: Seq::empty(), phone: Seq::empty() }),
    {
        MetadataRecord { name: String::new(), email: String::new(), phone: String::new() }
    }

    /// Writes the record in its text form.
    pub fn to_json(&self) -> (text: String)
        ensures
            text@ == record_text(self@),
    {
        let mut out: Vec<char> = Vec::new();
        out.push('{');
        write_member(&mut out, &name_key_chars(), self.name.as_str());
        out.push(',');
        write_member(&mut out, &email_key_chars(), self.email.as_str());
        out.push(',');
        write_member(&mut out, &phone_key_chars(), self.phone.as_str());
        out.push('}');
        assert(out@ == record_text(self@));
        string_of(&out)
    }

    /// Reads a record from its text form. The text need not be one that
    /// `to_json` wrote: spaces between the tokens, another order of the
    /// members and further members with string values are taken too.
    pub fn from_json(text: &str) -> (r: Result<MetadataRecord, MetadataError>)
        ensures
            match parse_record(text@) {
                Ok(v) => r matches Ok(record) && record@ == v,
                Err(e) => r matches Err(f) && f == e,
            },
    {
        let chars = chars_of(text);
        let members = match read_object(&chars) {
            None => {
                return Err(MetadataError::Malformed);
            },
            Some(members) => members,
        };
        let (names, name) = find_field(&members, &name_key_chars());
        if names == 0 {
            return Err(MetadataError::MissingField);
        }
        if names > 1 {
            return Err(MetadataError::RepeatedField);
        }
        let (emails, email) = find_field(&members, &email_key_chars());
        if emails == 0 {
            return Err(MetadataError::MissingField);
        }
        if emails > 1 {
            return Err(MetadataError::RepeatedField);
        }
        let (phones, phone) = find_field(&members, &phone_key_chars());
        if phones == 0 {
            return Err(MetadataError::MissingField);
        }
        if phones > 1 {
            return Err(MetadataError::RepeatedField);
        }
        Ok(
            MetadataRecord {
                name: string_of(&name),
                email: string_of(&email),
                phone: string_of(&phone),
            },
        )
    }
}

/// The three members of a written record, as a list.
pub open spec fn members_of_record(r: RecordView) -> Seq<(Seq<char>, Seq<char>)> {
    seq![(name_key(), r.name), (email_key(), r.email), (phone_key(), r.phone)]
}

/// A written member begins with a quote.
proof fn lemma_member_text_head(key: Seq<char>, value: Seq<char>, rest: Seq<char>)
    ensures
        (member_text(key, value) + rest).len() > 0,
        (member_text(key, value) + rest)[0] == '"',
        skip_spaces(member_text(key, value) + rest) == member_text(key, value) + rest,
{
    assert(quote(key)[0] == '"');
    assert(member_text(key, value)[0] == '"');
}

/// Behind a member, a comma and one more written member are read as that
/// member before whatever the rest is read as.
proof fn lemma_more_members_written(key: Seq<char>, value: Seq<char>, rest: Seq<char>)
    ensures
        parse_more_members(seq![','] + member_text(key, value) + rest) == with_members(
            seq![(key, value)],
            parse_more_members(rest),
        ),
{
    let s = seq![','] + member_text(key, value) + rest;
    let at_member = member_text(key, value) + rest;
    assert(s[0] == ',');
    assert(skip_spaces(s) == s);
    assert(s.skip(1) == at_member);
    lemma_member_text_head(key, value, rest);
    lemma_parse_written_member(key, value, rest);
    assert(parse_member(at_member) == Some(((key, value), rest)));
    assert(rest.len() < s.len());
}

/// The closing brace at the end of the text ends the list of members.
proof fn lemma_more_members_closed()
    ensures
        parse_more_members(seq!['}']) == Some(Seq::<(Seq<char>, Seq<char>)>::empty()),
{
    let s = seq!['}'];
    assert(s[0] == '}');
    assert(skip_spaces(s) == s);
    assert(s.skip(1) == Seq::<char>::empty());
    assert(skip_spaces(s.skip(1)).len() == 0);
}

/// An opening brace and one written member are read as that member before
/// whatever the rest is read as.
proof fn lemma_object_written(key: Seq<char>, value: Seq<char>, rest: Seq<char>)
    ensures
        parse_object(seq!['{'] + member_text(key, value) + rest) == with_members(
            seq![(key, value)],
            parse_more_members(rest),
        ),
{
    let s = seq!['{'] + member_text(key, value) + rest;
    let inside = member_text(key, value) + rest;
    assert(s[0] == '{');
    assert(skip_spaces(s) == s);
    assert(s.skip(1) == inside);
    lemma_member_text_head(key, value, rest);
    lemma_parse_written_member(key, value, rest);
    assert(parse_member(inside) == Some(((key, value), rest)));
}

/// What is written behind the member `email` is read as the member `phone`
/// alone.
proof fn lemma_read_after_email(r: RecordView)
    ensures
        parse_more_members(text_after_email(r)) == Some(seq![(phone_key(), r.phone)]),
{
    let last = seq![(phone_key(), r.phone)];
    lemma_more_members_closed();
    lemma_more_members_written(phone_key(), r.phone, seq!['}']);
    assert(last + Seq::<(Seq<char>, Seq<char>)>::empty() == last);
}

/// What is written behind the member `name` is read as the members `email`
/// and `phone`.
proof fn lemma_read_after_name(r: RecordView)
    ensures
        parse_more_members(text_after_name(r)) == Some(
            seq![(email_key(), r.email), (phone_key(), r.phone)],
        ),
{
    lemma_read_after_email(r);
    lemma_more_members_written(email_key(), r.email, text_after_email(r));
    assert(seq![(email_key(), r.email)] + seq![(phone_key(), r.phone)] == seq![
        (email_key(), r.email),
        (phone_key(), r.phone),
    ]);
}

/// One member before two others makes a list of three.
proof fn lemma_three_members(
    a: (Seq<char>, Seq<char>),
    b: (Seq<char>, Seq<char>),
    c: (Seq<char>, Seq<char>),
)
    ensures
        seq![a] + seq![b, c] == seq![a, b, c],
        with_members(seq![a], Some(seq![b, c])) == Some(seq![a, b, c]),
{
    assert(seq![a] + seq![b, c] =~= seq![a, b, c]);
}

/// The text form of a record is read as an object with the three members of
/// the record, in the order in which they were written.
pub proof fn lemma_written_record_is_object(r: RecordView)
    ensures
        parse_object(record_text(r)) == Some(members_of_record(r)),
{
    lemma_read_after_name(r);
    lemma_object_written(name_key(), r.name, text_after_name(r));
    lemma_three_members((name_key(), r.name), (email_key(), r.email), (phone_key(), r.phone));
}

/// The three members of a record stand for that record.
pub proof fn lemma_record_of_its_members(r: RecordView)
    ensures
        record_of_members(members_of_record(r)) == Ok::<RecordView, MetadataError>(r),
{
    let ms = members_of_record(r);
    let two = seq![(name_key(), r.name), (email_key(), r.email)];
    let one = seq![(name_key(), r.name)];
    assert(ms.drop_last() == two);
    assert(two.drop_last() == one);
    assert(one.drop_last() == Seq::<(Seq<char>, Seq<char>)>::empty());
    assert(name_key().len() != email_key().len());
    assert(name_key().len() != phone_key().len());
    assert(email_key()[0] != phone_key()[0]);
    assert(name_key() != email_key());
    assert(name_key() != phone_key());
    assert(email_key() != phone_key());
    assert(count_key(one.drop_last(), name_key()) == 0);
    assert(count_key(one.drop_last(), email_key()) == 0);
    assert(count_key(one.drop_last(), phone_key()) == 0);
    assert(count_key(one, name_key()) == 1);
    assert(count_key(one, email_key()) == 0);
    assert(count_key(one, phone_key()) == 0);
    assert(value_of(one, name_key()) == r.name);
    assert(count_key(two, name_key()) == 1);
    assert(count_key(two, email_key()) == 1);
    assert(count_key(two, phone_key()) == 0);
    assert(value_of(two, name_key()) == r.name);
    assert(value_of(two, email_key()) == r.email);
    assert(count_key(ms, name_key()) == 1);
    assert(count_key(ms, email_key()) == 1);
    assert(count_key(ms, phone_key()) == 1);
    assert(value_of(ms, name_key()) == r.name);
    assert(value_of(ms, email_key()) == r.email);
    assert(value_of(ms, phone_key()) == r.phone);
}

/// Writing a record and reading the text back gives the record again, with
/// the same three fields, whatever characters they hold: empty fields,
/// quotes, backslashes and control characters included.
pub proof fn lemma_round_trip(r: RecordView)
    ensures
        parse_record(record_text(r)) == Ok::<RecordView, MetadataError>(r),
{
    lemma_written_record_is_object(r);
    lemma_record_of_its_members(r);
}

/// Two records with the same text form are the same record: no two
/// submissions are written alike unless they agree in all three fields.
pub proof fn lemma_text_form_is_injective(a: RecordView, b: RecordView)
    requires
        record_text(a) == record_text(b),
    ensures
        a == b,
{
    lemma_round_trip(a);
    lemma_round_trip(b);
}

} // verus!
