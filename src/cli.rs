//! Argument checks, the confirmation dialogue's decisions, and the application url of an API.
use crate::text::{lower_of, lowercase, matches_at, push_char, text_eq, to_chars};
use vstd::prelude::*;
use vstd::utf8::{decode_utf8, valid_utf8};

verus! {

/// How often the character `c` occurs in `s`.
pub open spec fn count_char(s: Seq<char>, c: char) -> nat
    decreases s.len(),
{
    if s.len() == 0 {
        0
    } else {
        count_char(s.drop_last(), c) + if s.last() == c {
            1nat
        } else {
            0nat
        }
    }
}

/// The number of times `c` occurs in `s`.
pub fn count_char_exec(s: &str, c: char) -> (r: usize)
    ensures
        r == count_char(s@, c),
{
    let v = to_chars(s);
    let mut n: usize = 0;
    let mut i: usize = 0;
    while i < v.len()
        invariant
            i <= v@.len(),
            v@ == s@,
            n == count_char(v@.take(i as int), c),
            n <= i,
        decreases v@.len() - i,
    {
        assert(v@.take(i + 1).drop_last() =~= v@.take(i as int));
        if v[i] == c {
            n = n + 1;
        }
        i = i + 1;
    }
    assert(v@.take(i as int) =~= v@);
    n
}

/// Checks an `environment:tag` argument: exactly one colon separates the two names.
pub fn environment_tag_validator(arg_value: String) -> (r: Result<(), String>)
    ensures
        count_char(arg_value@, ':') == 1 ==> r is Ok,
        count_char(arg_value@, ':') == 0 ==> r is Err && r->Err_0@
            == "Use a ':' to separate the environment and tag names"@,
        count_char(arg_value@, ':') > 1 ==> r is Err && r->Err_0@
            == "Can only have one ':' to separate the environment and tag names"@,
{
    let colons = count_char_exec(arg_value.as_str(), ':');
    if colons == 1 {
        Ok(())
    } else if colons == 0 {
        Err(String::from_str("Use a ':' to separate the environment and tag names"))
    } else {
        Err(String::from_str("Can only have one ':' to separate the environment and tag names"))
    }
}

/// What `str::parse::<i32>` reports for a text it refuses, shown with `Display`; `None` where
/// it reads the text.
pub uninterp spec fn i32_error_of(s: Seq<char>) -> Option<Seq<char>>;

/// Relies on `str::parse::<i32>`: the error, shown with `Display`, where the text is no `i32`.
#[verifier::external_body]
fn i32_parse_error(s: &str) -> (r: Option<String>)
    ensures
        r.deep_view() == i32_error_of(s@),
{
    match s.parse::<i32>() {
        Ok(_) => None,
        Err(e) => Some(e.to_string()),
    }
}

/// Checks that an argument is a 32-bit integer.
pub fn i32_validator(arg_value: String) -> (r: Result<(), String>)
    ensures
        match i32_error_of(arg_value@) {
            None => r is Ok,
            Some(e) => r is Err && r->Err_0@ == e,
        },
{
    match i32_parse_error(arg_value.as_str()) {
        None => Ok(()),
        Some(e) => Err(e),
    }
}

/// What `str::trim` returns for a text.
pub uninterp spec fn trim_of(s: Seq<char>) -> Seq<char>;

/// Relies on `str::trim`: the result depends on the characters alone.
#[verifier::external_body]
fn trimmed(s: &str) -> (r: String)
    ensures
        r@ == trim_of(s@),
{
    s.trim().to_string()
}

/// How many answers the confirmation dialogue reads before it gives up.
pub const CONFIRM_TRIES: usize = 3;

/// The choices shown after a question: the default in capitals.
pub fn confirm_choices(default: Option<bool>) -> (r: String)
    ensures
        r@ == match default {
            None => "y/n"@,
            Some(true) => "Y/n"@,
            Some(false) => "y/N"@,
        },
{
    match default {
        None => String::from_str("y/n"),
        Some(true) => String::from_str("Y/n"),
        Some(false) => String::from_str("y/N"),
    }
}

/// What the dialogue does after an answer.
#[derive(Clone, Copy, Debug, PartialEq, Eq, Structural)]
pub enum ConfirmStep {
    /// The question is settled with this answer.
    Done(bool),
    /// Ask the question again.
    AskAgain,
}

/// The answer a normalised reply gives: empty takes the default, `y`/`yes` agree, `n`/`no`
/// refuse, anything else gives none.
pub open spec fn answer_of(reply: Seq<char>, default: Option<bool>) -> Option<bool> {
    if reply.len() == 0 && default.is_some() {
        default
    } else if reply == "y"@ || reply == "yes"@ {
        Some(true)
    } else if reply == "n"@ || reply == "no"@ {
        Some(false)
    } else {
        None
    }
}

/// One step of the confirmation dialogue: the reply is trimmed and case-folded; a reply that
/// settles the question ends it, and after `CONFIRM_TRIES` unsettled replies the answer is no.
pub fn confirm_step(tries_done: usize, input: &str, default: Option<bool>) -> (r: ConfirmStep)
    requires
        tries_done < CONFIRM_TRIES,
    ensures
        ({
            let reply = lower_of(trim_of(input@));
            match answer_of(reply, default) {
                Some(b) => r == ConfirmStep::Done(b),
                None => if tries_done + 1 >= CONFIRM_TRIES {
                    r == ConfirmStep::Done(false)
                } else {
                    r == ConfirmStep::AskAgain
                },
            }
        }),
{
    let t = trimmed(input);
    let reply = lowercase(t.as_str());
    let r = reply.as_str();
    if r.unicode_len() == 0 && default.is_some() {
        return ConfirmStep::Done(default.unwrap());
    }
    if text_eq(r, "y") || text_eq(r, "yes") {
        return ConfirmStep::Done(true);
    }
    if text_eq(r, "n") || text_eq(r, "no") {
        return ConfirmStep::Done(false);
    }
    if tries_done + 1 >= CONFIRM_TRIES {
        ConfirmStep::Done(false)
    } else {
        ConfirmStep::AskAgain
    }
}

} // verus!

verus! {

/// `s` with every occurrence of `from` replaced by `to`, scanning left to right.
pub open spec fn replace_all(s: Seq<char>, from: Seq<char>, to: Seq<char>) -> Seq<char>
    decreases s.len(),
{
    if from.len() == 0 || s.len() < from.len() {
        s
    } else if s.subrange(0, from.len() as int) == from {
        to + replace_all(s.skip(from.len() as int), from, to)
    } else {
        seq![s[0]] + replace_all(s.drop_first(), from, to)
    }
}

fn text_of_chars(v: &Vec<char>, start: usize) -> (r: String)
    requires
        start <= v@.len(),
    ensures
        r@ == v@.skip(start as int),
{
    let mut s = String::new();
    let mut i: usize = start;
    while i < v.len()
        invariant
            start <= i <= v@.len(),
            s@ == v@.subrange(start as int, i as int),
        decreases v@.len() - i,
    {
        push_char(&mut s, v[i]);
        i = i + 1;
        assert(s@ =~= v@.subrange(start as int, i as int));
    }
    assert(v@.subrange(start as int, i as int) =~= v@.skip(start as int));
    s
}

/// Replaces every occurrence of a non-empty `from` in `s` by `to`.
pub fn replace_exec(s: &str, from: &str, to: &str) -> (r: String)
    requires
        from@.len() > 0,
    ensures
        r@ == replace_all(s@, from@, to@),
{
    let sv = to_chars(s);
    let fv = to_chars(from);
    let n: usize = sv.len();
    let m: usize = fv.len();
    let mut out = String::new();
    let mut i: usize = 0;
    assert(sv@.skip(0) =~= sv@);
    while m <= n && i <= n - m
        invariant
            sv@ == s@,
            fv@ == from@,
            n == sv@.len(),
            m == fv@.len(),
            m > 0,
            i <= n,
            out@ + replace_all(sv@.skip(i as int), from@, to@) == replace_all(s@, from@, to@),
        decreases n - i,
    {
        let ghost rest = sv@.skip(i as int);
        assert(rest.subrange(0, m as int) =~= sv@.subrange(i as int, i + m));
        if matches_at(&sv, &fv, i) {
            assert(rest.skip(m as int) =~= sv@.skip(i + m));
            out.append(to);
            i = i + m;
        } else {
            assert(rest.drop_first() =~= sv@.skip(i + 1));
            push_char(&mut out, sv[i]);
            i = i + 1;
        }
    }
    let tail = text_of_chars(&sv, i);
    out.append(tail.as_str());
    out
}

/// Whether `p` begins `s`.
pub open spec fn starts_with(s: Seq<char>, p: Seq<char>) -> bool {
    p.len() <= s.len() && s.subrange(0, p.len() as int) == p
}

/// Whether `p` ends `s`.
pub open spec fn ends_with(s: Seq<char>, p: Seq<char>) -> bool {
    p.len() <= s.len() && s.subrange(s.len() - p.len(), s.len() as int) == p
}

fn starts_with_exec(s: &Vec<char>, p: &str) -> (r: bool)
    ensures
        r == starts_with(s@, p@),
{
    let pv = to_chars(p);
    if pv.len() > s.len() {
        return false;
    }
    matches_at(s, &pv, 0)
}

fn ends_with_exec(s: &Vec<char>, p: &str) -> (r: bool)
    ensures
        r == ends_with(s@, p@),
{
    let pv = to_chars(p);
    if pv.len() > s.len() {
        return false;
    }
    matches_at(s, &pv, s.len() - pv.len())
}

/// An API url that has no application counterpart.
#[derive(Clone, Debug, PartialEq)]
pub enum ApplicationError {
    InvalidApiUrl(String),
}

impl ApplicationError {
    /// The text shown for the error.
    pub open spec fn text(&self) -> Seq<char> {
        match self {
            ApplicationError::InvalidApiUrl(u) => "No equivalent application URL for API: "@ + u@,
        }
    }

    pub fn message(&self) -> (r: String)
        ensures
            r@ == self.text(),
    {
        match self {
            ApplicationError::InvalidApiUrl(u) => {
                let mut s = String::from_str("No equivalent application URL for API: ");
                s.append(u.as_str());
                s
            },
        }
    }
}

/// An API url without one trailing `/`.
pub open spec fn without_slash(u: Seq<char>) -> Seq<char> {
    if u.len() > 0 && u.last() == '/' {
        u.drop_last()
    } else {
        u
    }
}

/// The web page where API keys are made, for an API url: the local development server maps
/// to its application port, and `https://api.`...`cloudtruth.io` to the `app` host.
pub open spec fn api_access_url(u: Seq<char>) -> Option<Seq<char>> {
    let a = without_slash(u);
    if starts_with(a, "https://localhost:8000"@) {
        Some("https://localhost:7000/organization/api"@)
    } else if starts_with(a, "https://api."@) && ends_with(a, "cloudtruth.io"@) {
        Some(replace_all(a, "https://api"@, "https://app"@) + "/organization/api"@)
    } else {
        None
    }
}

/// The web page where API keys are made, for the API at `api_url`.
pub fn get_api_access_url(api_url: &str) -> (r: Result<String, ApplicationError>)
    ensures
        match api_access_url(api_url@) {
            Some(t) => r is Ok && r->Ok_0@ == t,
            None => r is Err && match r->Err_0 {
                ApplicationError::InvalidApiUrl(x) => x@ == api_url@,
            },
        },
{
    let mut v = to_chars(api_url);
    if v.len() > 0 && v[v.len() - 1] == '/' {
        v.pop();
        assert(v@ =~= without_slash(api_url@));
    } else {
        assert(v@ =~= without_slash(api_url@));
    }
    if starts_with_exec(&v, "https://localhost:8000") {
        return Ok(String::from_str("https://localhost:7000/organization/api"));
    }
    if starts_with_exec(&v, "https://api.") && ends_with_exec(&v, "cloudtruth.io") {
        let a = text_of_chars(&v, 0);
        assert(v@.skip(0) =~= v@);
        proof {
            reveal_strlit("https://api");
        }
        let mut r = replace_exec(a.as_str(), "https://api", "https://app");
        r.append("/organization/api");
        return Ok(r);
    }
    Err(ApplicationError::InvalidApiUrl(String::from_str(api_url)))
}

/// A text buffer that collects what is written to it.
pub struct StringWriter {
    string: String,
}

/// What `str::from_utf8` reports, shown with `Display`, for bytes that are
/// no UTF-8.
pub uninterp spec fn utf8_error_of(b: Seq<u8>) -> Seq<char>;

/// Relies on `str::from_utf8`: it reads exactly the valid UTF-8 byte strings, as the
/// characters they encode; otherwise its error is shown with `Display`.
#[verifier::external_body]
fn decode_bytes(data: &[u8]) -> (r: Result<String, String>)
    ensures
        match r {
            Ok(s) => valid_utf8(data@) && s@ == decode_utf8(data@),
            Err(e) => !valid_utf8(data@) && e@ == utf8_error_of(data@),
        },
{
    match std::str::from_utf8(data) {
        Ok(s) => Ok(s.to_string()),
        Err(e) => Err(e.to_string()),
    }
}

impl View for StringWriter {
    type V = Seq<char>;

    closed spec fn view(&self) -> Seq<char> {
        self.string@
    }
}

impl StringWriter {
    pub fn new() -> (r: StringWriter)
        ensures
            r@ == Seq::<char>::empty(),
    {
        StringWriter { string: String::new() }
    }

    /// What was written so far.
    pub fn as_string(&self) -> (r: &str)
        ensures
            r@ == self@,
    {
        self.string.as_str()
    }

    /// Writes UTF-8 bytes; bytes that are no UTF-8 are refused and nothing is written.
    pub fn write(&mut self, data: &[u8]) -> (r: Result<usize, String>)
        ensures
            valid_utf8(data@) ==> r == Ok::<usize, String>(data@.len() as usize) && final(self)@
                == old(self)@ + decode_utf8(data@),
            !valid_utf8(data@) ==> r is Err && r->Err_0@ == "Cannot decode utf8 string : "@
                + utf8_error_of(data@) && final(self)@ == old(self)@,
    {
        match decode_bytes(data) {
            Ok(s) => {
                self.string.append(s.as_str());
                Ok(data.len())
            },
            Err(e) => {
                let mut m = String::from_str("Cannot decode utf8 string : ");
                m.append(e.as_str());
                Err(m)
            },
        }
    }

    /// Nothing is buffered, so there is nothing to flush.
    pub fn flush(&mut self) -> (r: Result<(), String>)
        ensures
            r is Ok,
            final(self)@ == old(self)@,
    {
        Ok(())
    }
}

} // verus!
