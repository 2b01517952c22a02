//! Header lists: names in canonical form, textual values.

use vstd::prelude::*;
use vstd::string::StringExecFns;
use vstd::string::StringSliceAdditionalSpecFns;
use crate::text::ascii_lower;

verus! {

/// A character that may stand in a header name: a letter, a digit or one
/// of the signs that a token may hold.
pub open spec fn name_char_ok(c: char) -> bool {
    ('a' <= c && c <= 'z') || ('A' <= c && c <= 'Z') || ('0' <= c && c <= '9') || c == '!' || c
        == '#' || c == '$' || c == '%' || c == '&' || c == '\'' || c == '*' || c == '+' || c == '-'
        || c == '.' || c == '^' || c == '_' || c == '`' || c == '|' || c == '~'
}

/// The longest header name, in characters.
pub const MAX_NAME_LEN: usize = 65535;

/// The canonical form of a header name: its capital letters turned small.
/// `None` where the name is empty, too long or holds a character that a
/// name may not hold.
pub open spec fn header_name_canon(name: Seq<char>) -> Option<Seq<char>> {
    if 1 <= name.len() <= MAX_NAME_LEN && (forall|i: int|
        0 <= i < name.len() ==> name_char_ok(#[trigger] name[i])) {
        Some(Seq::new(name.len(), |i: int| ascii_lower(name[i])))
    } else {
        None
    }
}

/// A name in canonical form is its own canonical form.
pub proof fn lemma_canon_idempotent(name: Seq<char>)
    ensures
        header_name_canon(name) matches Some(canon) ==> header_name_canon(canon) == Some(canon),
{
    if let Some(canon) = header_name_canon(name) {
        assert forall|i: int| 0 <= i < canon.len() implies name_char_ok(#[trigger] canon[i]) by {
            assert(name_char_ok(name[i]));
        }
        assert(Seq::new(canon.len(), |i: int| ascii_lower(canon[i])) =~= canon);
    }
}

/// A byte that `http` accepts inside a header value.
pub open spec fn value_byte_ok(b: u8) -> bool {
    (b >= 32 && b != 127) || b == 9
}

/// Every byte of the value is acceptable.
pub open spec fn spec_value_ok(bytes: Seq<u8>) -> bool {
    forall|i: int| 0 <= i < bytes.len() ==> value_byte_ok(#[trigger] bytes[i])
}

/// A status code that `http` accepts.
pub open spec fn spec_status_ok(code: u16) -> bool {
    100 <= code < 1000
}

/// Calls `hyper::header::HeaderName::from_bytes` on the bytes of `name` and
/// hands back the parsed name's `as_str()`. The claim: a name is accepted
/// exactly when it has 1 to 65535 characters, each a letter, a digit or one
/// of the signs ``!#$%&'*+-.^_`|~``, and the string of an accepted name is
/// the name with its capital letters turned small.
#[verifier::external_body]
pub(crate) fn canonical_name(name: &str) -> (r: Option<String>)
    ensures
        match r {
            Some(n) => header_name_canon(name@) == Some(n@),
            None => header_name_canon(name@) is None,
        },
{
    match hyper::header::HeaderName::from_bytes(name.as_bytes()) {
        Ok(parsed) => Some(parsed.as_str().to_string()),
        Err(_) => None,
    }
}

/// Calls `hyper::header::HeaderValue::from_str`. The claim: it succeeds
/// exactly when every byte of the text is at least 32 and not 127, or is a
/// tab.
#[verifier::external_body]
pub(crate) fn value_ok(value: &str) -> (r: bool)
    ensures
        r == spec_value_ok(value.spec_bytes()),
{
    hyper::header::HeaderValue::from_str(value).is_ok()
}

/// Calls `hyper::StatusCode::from_u16`. The claim: it succeeds exactly for
/// codes from 100 to 999.
#[verifier::external_body]
pub(crate) fn status_ok(code: u16) -> (r: bool)
    ensures
        r == spec_status_ok(code),
{
    hyper::StatusCode::from_u16(code).is_ok()
}

/// The value of the first entry named `name`.
pub open spec fn lookup(h: Seq<(Seq<char>, Seq<char>)>, name: Seq<char>) -> Option<Seq<char>>
    decreases h.len(),
{
    if h.len() == 0 {
        None
    } else {
        match lookup(h.drop_last(), name) {
            Some(v) => Some(v),
            None => if h.last().0 == name {
                Some(h.last().1)
            } else {
                None
            },
        }
    }
}

/// The list without the entries named `name`.
pub open spec fn without(h: Seq<(Seq<char>, Seq<char>)>, name: Seq<char>) -> Seq<
    (Seq<char>, Seq<char>),
>
    decreases h.len(),
{
    if h.len() == 0 {
        h
    } else if h.last().0 == name {
        without(h.drop_last(), name)
    } else {
        without(h.drop_last(), name).push(h.last())
    }
}

/// The list in which `name` has the single value `value`: earlier entries of
/// that name are gone, the new one stands last.
pub open spec fn with_entry(
    h: Seq<(Seq<char>, Seq<char>)>,
    name: Seq<char>,
    value: Seq<char>,
) -> Seq<(Seq<char>, Seq<char>)> {
    without(h, name).push((name, value))
}

/// What `insert` leaves behind: the entry is set when name and value are
/// both acceptable, else the list is unchanged.
pub open spec fn inserted(
    h: Seq<(Seq<char>, Seq<char>)>,
    name: Seq<char>,
    value: Seq<char>,
    value_bytes: Seq<u8>,
) -> Seq<(Seq<char>, Seq<char>)> {
    match header_name_canon(name) {
        Some(canon) => if spec_value_ok(value_bytes) {
            with_entry(h, canon, value)
        } else {
            h
        },
        None => h,
    }
}

/// An empty list holds no name.
pub proof fn lemma_lookup_empty(name: Seq<char>)
    ensures
        lookup(Seq::empty(), name) is None,
{
}

/// Removing a name leaves no entry of that name.
pub proof fn lemma_without_clears(h: Seq<(Seq<char>, Seq<char>)>, name: Seq<char>)
    ensures
        lookup(without(h, name), name) is None,
    decreases h.len(),
{
    if h.len() > 0 {
        lemma_without_clears(h.drop_last(), name);
        if h.last().0 != name {
            let w = without(h.drop_last(), name).push(h.last());
            assert(w.drop_last() =~= without(h.drop_last(), name));
        }
    }
}

/// Removing a name leaves every other name as it was.
pub proof fn lemma_without_keeps(
    h: Seq<(Seq<char>, Seq<char>)>,
    name: Seq<char>,
    other: Seq<char>,
)
    requires
        other != name,
    ensures
        lookup(without(h, name), other) == lookup(h, other),
    decreases h.len(),
{
    if h.len() > 0 {
        lemma_without_keeps(h.drop_last(), name, other);
        if h.last().0 != name {
            let w = without(h.drop_last(), name).push(h.last());
            assert(w.drop_last() =~= without(h.drop_last(), name));
        }
    }
}

/// After a name is set, looking it up gives the new value, and every other
/// name reads as before.
pub proof fn lemma_with_entry(
    h: Seq<(Seq<char>, Seq<char>)>,
    name: Seq<char>,
    value: Seq<char>,
    other: Seq<char>,
)
    ensures
        lookup(with_entry(h, name, value), name) == Some(value),
        other != name ==> lookup(with_entry(h, name, value), other) == lookup(h, other),
{
    let w = with_entry(h, name, value);
    assert(w.drop_last() =~= without(h, name));
    lemma_without_clears(h, name);
    if other != name {
        lemma_without_keeps(h, name, other);
    }
}

/// One header: a name and its value.
#[derive(Debug)]
pub struct Header {
    pub name: String,
    pub value: String,
}

/// An ordered list of headers.
#[derive(Debug)]
pub struct HeaderList {
    entries: Vec<Header>,
}

impl View for HeaderList {
    type V = Seq<(Seq<char>, Seq<char>)>;

    closed spec fn view(&self) -> Seq<(Seq<char>, Seq<char>)> {
        Seq::new(self.entries@.len(), |i: int| (self.entries@[i].name@, self.entries@[i].value@))
    }
}

impl HeaderList {
    /// An empty list.
    pub fn new() -> (h: HeaderList)
        ensures
            h@ == Seq::<(Seq<char>, Seq<char>)>::empty(),
    {
        let h = HeaderList { entries: Vec::new() };
        assert(h@ =~= Seq::<(Seq<char>, Seq<char>)>::empty());
        h
    }

    /// The number of entries.
    pub fn len(&self) -> (n: usize)
        ensures
            n == self@.len(),
    {
        self.entries.len()
    }

    /// The name and the value of entry `i`, if there are that many.
    pub fn entry(&self, i: usize) -> (r: Option<(&str, &str)>)
        ensures
            match r {
                Some((name, value)) => i < self@.len() && name@ == self@[i as int].0 && value@
                    == self@[i as int].1,
                None => i >= self@.len(),
            },
    {
        if i < self.entries.len() {
            Some((self.entries[i].name.as_str(), self.entries[i].value.as_str()))
        } else {
            None
        }
    }

    fn find(&self, canon: &String) -> (r: Option<usize>)
        ensures
            match r {
                Some(i) => i < self@.len() && lookup(self@, canon@) == Some(self@[i as int].1),
                None => lookup(self@, canon@) is None,
            },
    {
        let mut i: usize = 0;
        while i < self.entries.len()
            invariant
                i <= self.entries@.len(),
                lookup(self@.take(i as int), canon@) is None,
            decreases self.entries@.len() - i,
        {
            if self.entries[i].name == *canon {
                proof {
                    lemma_lookup_found(self@, canon@, i as int);
                }
                return Some(i);
            }
            proof {
                assert(self@.take(i + 1).drop_last() =~= self@.take(i as int));
            }
            i = i + 1;
        }
        proof {
            assert(self@.take(i as int) =~= self@);
        }
        None
    }

    /// The value of the first header whose name is exactly `canon`.
    pub fn get_canonical(&self, canon: &str) -> (r: Option<&str>)
        ensures
            match r {
                Some(v) => lookup(self@, canon@) == Some(v@),
                None => lookup(self@, canon@) is None,
            },
    {
        let key = String::from_str(canon);
        match self.find(&key) {
            Some(i) => Some(self.entries[i].value.as_str()),
            None => None,
        }
    }

    /// Sets the header `canon`, taken as it is written, to `value`,
    /// replacing every earlier entry of that name.
    pub fn put(&mut self, canon: &str, value: &str)
        ensures
            final(self)@ == with_entry(old(self)@, canon@, value@),
    {
        let key = String::from_str(canon);
        self.replace(key, value);
    }

    fn replace(&mut self, canon: String, value: &str)
        ensures
            final(self)@ == with_entry(old(self)@, canon@, value@),
    {
        let ghost before = self@;
        let mut kept: Vec<Header> = Vec::new();
        let mut i: usize = 0;
        while i < self.entries.len()
            invariant
                i <= self.entries@.len(),
                self@ == before,
                Seq::new(kept@.len(), |k: int| (kept@[k].name@, kept@[k].value@)) == without(
                    before.take(i as int),
                    canon@,
                ),
            decreases self.entries@.len() - i,
        {
            let ghost kept_before = Seq::new(
                kept@.len(),
                |k: int| (kept@[k].name@, kept@[k].value@),
            );
            proof {
                assert(before.take(i + 1).drop_last() =~= before.take(i as int));
                assert(before.take(i + 1).last() == before[i as int]);
            }
            if self.entries[i].name != canon {
                let entry = Header {
                    name: self.entries[i].name.clone(),
                    value: self.entries[i].value.clone(),
                };
                kept.push(entry);
                assert(Seq::new(kept@.len(), |k: int| (kept@[k].name@, kept@[k].value@))
                    =~= kept_before.push(before[i as int]));
            }
            i = i + 1;
        }
        proof {
            assert(before.take(i as int) =~= before);
        }
        let ghost kept_view = Seq::new(kept@.len(), |k: int| (kept@[k].name@, kept@[k].value@));
        kept.push(Header { name: canon, value: String::from_str(value) });
        self.entries = kept;
        assert(self@ =~= kept_view.push((canon@, value@)));
    }

    /// The value of the first header whose name is `name` in canonical form;
    /// `None` where there is none or the name is not acceptable.
    pub fn get(&self, name: &str) -> (r: Option<&str>)
        ensures
            match header_name_canon(name@) {
                Some(canon) => match r {
                    Some(v) => lookup(self@, canon) == Some(v@),
                    None => lookup(self@, canon) is None,
                },
                None => r is None,
            },
    {
        match canonical_name(name) {
            None => None,
            Some(canon) => match self.find(&canon) {
                Some(i) => Some(self.entries[i].value.as_str()),
                None => None,
            },
        }
    }

    /// Whether a header of that name is present.
    pub fn contains_key(&self, name: &str) -> (r: bool)
        ensures
            r == match header_name_canon(name@) {
                Some(canon) => lookup(self@, canon) is Some,
                None => false,
            },
    {
        match canonical_name(name) {
            None => false,
            Some(canon) => self.find(&canon).is_some(),
        }
    }

    /// Adds an entry at the end, keeping what is there. Nothing is added
    /// where the name or the value is not acceptable; the result says
    /// whether the entry was added.
    pub fn append(&mut self, name: &str, value: &str) -> (r: bool)
        ensures
            r == (header_name_canon(name@) is Some && spec_value_ok(value.spec_bytes())),
            r ==> final(self)@ == old(self)@.push((header_name_canon(name@)->0, value@)),
            !r ==> final(self)@ == old(self)@,
    {
        match canonical_name(name) {
            None => false,
            Some(canon) => {
                if !value_ok(value) {
                    return false;
                }
                let ghost before = self@;
                self.entries.push(Header { name: canon, value: String::from_str(value) });
                assert(self@ =~= before.push((header_name_canon(name@)->0, value@)));
                true
            },
        }
    }

    /// Sets the header `name` to `value`, replacing every earlier entry of
    /// that name. Nothing changes where the name or the value is not
    /// acceptable; the result says whether the entry was set.
    pub fn insert(&mut self, name: &str, value: &str) -> (r: bool)
        ensures
            r == (header_name_canon(name@) is Some && spec_value_ok(value.spec_bytes())),
            final(self)@ == inserted(old(self)@, name@, value@, value.spec_bytes()),
    {
        match canonical_name(name) {
            None => false,
            Some(canon) => {
                if !value_ok(value) {
                    return false;
                }
                self.replace(canon, value);
                true
            },
        }
    }

    /// A copy of the list.
    pub fn copy(&self) -> (h: HeaderList)
        ensures
            h@ == self@,
    {
        let mut entries: Vec<Header> = Vec::new();
        let mut i: usize = 0;
        while i < self.entries.len()
            invariant
                i <= self.entries@.len(),
                entries@.len() == i,
                forall|k: int|
                    0 <= k < i ==> (#[trigger] entries@[k]).name@ == self.entries@[k].name@
                        && entries@[k].value@ == self.entries@[k].value@,
            decreases self.entries@.len() - i,
        {
            let entry = Header {
                name: self.entries[i].name.clone(),
                value: self.entries[i].value.clone(),
            };
            entries.push(entry);
            i = i + 1;
        }
        let h = HeaderList { entries };
        assert(h@ =~= self@);
        h
    }
}

/// Where entry `i` is the first of its name, looking the name up gives the
/// value of entry `i`.
pub proof fn lemma_lookup_found(h: Seq<(Seq<char>, Seq<char>)>, name: Seq<char>, i: int)
    requires
        0 <= i < h.len(),
        h[i].0 == name,
        lookup(h.take(i), name) is None,
    ensures
        lookup(h, name) == Some(h[i].1),
    decreases h.len(),
{
    if i == h.len() - 1 {
        assert(h.drop_last() =~= h.take(i));
    } else {
        assert(h.drop_last().take(i) =~= h.take(i));
        lemma_lookup_found(h.drop_last(), name, i);
    }
}

} // verus!
