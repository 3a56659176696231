//! What the pages around the storage are made of: where a login leads, and
//! how the marks of a page are replaced by what is to be shown.

use crate::reply::{Reply, ReplyView};
use crate::text::{chars_of, extend_chars, same_chars, string_of};
use vstd::prelude::*;
use vstd::string::StringExecFns;

verus! {

/// The user who is led to the administrative view.
pub const ADMINISTRATOR: &'static str = "plank";

/// Where the administrator is led after a login.
pub const ADMIN_PAGE: &'static str = "/admin/";

/// Where every other user is led after a login; the user's name follows.
pub const LOGGED_IN_PAGE: &'static str = "/logged_in?username=";

/// Where a login that was not accepted leads.
pub const LOGIN_FAIL_PAGE: &'static str = "/login_fail/";

/// The mark of the administrative page that stands for the list of
/// attachments.
pub const FTP_MARK: &'static str = "REPLACE_FTP";

/// The mark of the administrative page that stands for the cards of the
/// metadata records.
pub const EMAILS_MARK: &'static str = "REPLACE_EMAILS";

/// The mark that stands for the user's name.
pub const USERNAME_MARK: &'static str = "REPLACE_USERNAME";

/// `s` begins with `head`.
pub open spec fn begins_with(s: Seq<char>, head: Seq<char>) -> bool {
    head.len() <= s.len() && s.take(head.len() as int) == head
}

/// `s` with every occurrence of `mark` replaced by `with`. Occurrences are
/// found from left to right and do not overlap; what was put in is not
/// searched again. An empty mark occurs nowhere.
pub open spec fn replaced(s: Seq<char>, mark: Seq<char>, with: Seq<char>) -> Seq<char>
    decreases s.len(),
{
    if mark.len() == 0 || s.len() == 0 {
        s
    } else if begins_with(s, mark) {
        with + replaced(s.skip(mark.len() as int), mark, with)
    } else {
        seq![s[0]] + replaced(s.skip(1), mark, with)
    }
}

/// Whether `(username, password)` is one of the pairs of `table`.
pub open spec fn is_listed(
    table: Seq<(String, String)>,
    username: Seq<char>,
    password: Seq<char>,
) -> bool {
    exists|i: int| 0 <= i < table.len() && (#[trigger] table[i]).0@ == username && table[i].1@
        == password
}

/// Where a login leads: a login that was not accepted to the page of
/// failed logins, the administrator to the administrative view, every
/// other user to the page that greets by name.
pub open spec fn login_reply_of(username: Seq<char>, accepted: bool) -> ReplyView {
    if !accepted {
        ReplyView::Redirect { location: LOGIN_FAIL_PAGE@ }
    } else if username == ADMINISTRATOR@ {
        ReplyView::Redirect { location: ADMIN_PAGE@ }
    } else {
        ReplyView::Redirect { location: LOGGED_IN_PAGE@ + username }
    }
}

/// Whether `(username, password)` is one of the pairs of `table`. Both
/// strings must be equal to those of the pair, character for character.
pub fn verify(table: &Vec<(String, String)>, username: &str, password: &str) -> (listed: bool)
    ensures
        listed == is_listed(table@, username@, password@),
{
    let name = chars_of(username);
    let word = chars_of(password);
    let mut i: usize = 0;
    while i < table.len()
        invariant
            i <= table.len(),
            name@ == username@,
            word@ == password@,
            forall|k: int|
                0 <= k < i ==> !((#[trigger] table@[k]).0@ == username@ && table@[k].1@
                    == password@),
        decreases table.len() - i,
    {
        let listed_name = chars_of(table[i].0.as_str());
        let listed_word = chars_of(table[i].1.as_str());
        if same_chars(&listed_name, &name) && same_chars(&listed_word, &word) {
            return true;
        }
        i += 1;
    }
    false
}

/// Where a login of `username` leads, once it is known whether the
/// credentials were accepted.
pub fn login_submit(username: &str, accepted: bool) -> (reply: Reply)
    ensures
        reply@ == login_reply_of(username@, accepted),
{
    if !accepted {
        return Reply::Redirect { location: String::from_str(LOGIN_FAIL_PAGE) };
    }
    let name = chars_of(username);
    let administrator = chars_of(ADMINISTRATOR);
    if same_chars(&name, &administrator) {
        Reply::Redirect { location: String::from_str(ADMIN_PAGE) }
    } else {
        let mut location = String::from_str(LOGGED_IN_PAGE);
        location.append(username);
        Reply::Redirect { location }
    }
}

/// Whether `head` stands in `s` at the place `at`.
fn begins_at(s: &Vec<char>, at: usize, head: &Vec<char>) -> (yes: bool)
    requires
        at <= s.len(),
    ensures
        yes == begins_with(s@.skip(at as int), head@),
{
    if head.len() > s.len() - at {
        return false;
    }
    let ghost here = s@.skip(at as int).take(head.len() as int);
    let mut k: usize = 0;
    while k < head.len()
        invariant
            k <= head.len(),
            at + head.len() <= s.len(),
            here == s@.skip(at as int).take(head.len() as int),
            here.take(k as int) == head@.take(k as int),
        decreases head.len() - k,
    {
        if s[at + k] != head[k] {
            assert(here[k as int] != head@[k as int]);
            return false;
        }
        k += 1;
        assert(here.take(k as int) == here.take(k - 1).push(here[k - 1]));
        assert(head@.take(k as int) == head@.take(k - 1).push(head@[k - 1]));
    }
    assert(here.take(here.len() as int) == here);
    assert(head@.take(head.len() as int) == head@);
    true
}

/// `text` with every occurrence of `mark` replaced by `with`.
pub fn replace_all(text: &str, mark: &str, with: &str) -> (out: String)
    ensures
        out@ == replaced(text@, mark@, with@),
{
    let s = chars_of(text);
    let m = chars_of(mark);
    let w = chars_of(with);
    if m.len() == 0 {
        return string_of(&s);
    }
    let mut out: Vec<char> = Vec::new();
    let mut i: usize = 0;
    assert(s@.skip(0) == s@);
    assert(out@ + replaced(s@, m@, w@) == replaced(s@, m@, w@));
    while i < s.len()
        invariant
            i <= s.len(),
            m.len() > 0,
            replaced(s@, m@, w@) == out@ + replaced(s@.skip(i as int), m@, w@),
        decreases s.len() - i,
    {
        let ghost rest = s@.skip(i as int);
        let ghost before = out@;
        if begins_at(&s, i, &m) {
            extend_chars(&mut out, &w);
            assert(rest.skip(m.len() as int) == s@.skip(i + m.len()));
            assert(before + (w@ + replaced(rest.skip(m.len() as int), m@, w@)) == (before + w@)
                + replaced(rest.skip(m.len() as int), m@, w@));
            i += m.len();
        } else {
            out.push(s[i]);
            assert(rest[0] == s@[i as int]);
            assert(rest.skip(1) == s@.skip(i + 1));
            assert(before + (seq![rest[0]] + replaced(rest.skip(1), m@, w@)) == before.push(
                rest[0],
            ) + replaced(rest.skip(1), m@, w@));
            i += 1;
        }
    }
    assert(s@.skip(s.len() as int).len() == 0);
    assert(out@ + Seq::<char>::empty() == out@);
    string_of(&out)
}

/// The text of the administrative page: every mark for the attachments
/// replaced by `ftp_view`, and then, in what came of that, every mark for
/// the records replaced by `email_view`.
pub fn admin(page: &str, ftp_view: &str, email_view: &str) -> (text: String)
    ensures
        text@ == replaced(replaced(page@, FTP_MARK@, ftp_view@), EMAILS_MARK@, email_view@),
{
    let with_files = replace_all(page, FTP_MARK, ftp_view);
    replace_all(with_files.as_str(), EMAILS_MARK, email_view)
}

/// The text of the page that greets a user: every mark for the user's
/// name replaced by `username`.
pub fn logged_in(page: &str, username: &str) -> (text: String)
    ensures
        text@ == replaced(page@, USERNAME_MARK@, username@),
{
    replace_all(page, USERNAME_MARK, username)
}

} // verus!
