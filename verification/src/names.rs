use vstd::prelude::*;

verus! {

/// Whether `c` is one of the separators that normalization collapses.
pub open spec fn is_sep(c: char) -> bool {
    c == '-' || c == '_' || c == '.'
}

/// ASCII lowercasing of a single character; other characters are kept.
pub open spec fn lower_char(c: char) -> char {
    if 65 <= c as u32 <= 90 {
        ((c as u32 + 32) as u8) as char
    } else {
        c
    }
}

/// Normalized form of a name, read from position `i` onward: characters are
/// ASCII-lowercased and every run of `-`, `_` and `.` becomes a single `-`.
/// `prev_sep` records whether a separator was just emitted.
pub open spec fn norm_from(s: Seq<char>, i: int, prev_sep: bool) -> Seq<char>
    decreases s.len() - i,
{
    if i >= s.len() {
        Seq::empty()
    } else if is_sep(s[i]) {
        if prev_sep {
            norm_from(s, i + 1, true)
        } else {
            seq!['-'] + norm_from(s, i + 1, true)
        }
    } else {
        seq![lower_char(s[i])] + norm_from(s, i + 1, false)
    }
}

/// The normalized form of a name: case- and separator-insensitive names
/// normalize to the same sequence.
pub open spec fn normalized_of(s: Seq<char>) -> Seq<char> {
    norm_from(s, 0, false)
}

/// Relies on `String`'s `FromIterator<&char>` implementation: collecting
/// characters yields the string of exactly those characters, in order.
#[verifier::external_body]
fn chars_to_string(v: &Vec<char>) -> (r: String)
    ensures
        r@ == v@,
{
    v.iter().collect()
}

/// Builds the normalized form of `s`.
fn normalize(s: &str) -> (r: String)
    ensures
        r@ == normalized_of(s@),
{
    let len = s.unicode_len();
    let mut out: Vec<char> = Vec::new();
    let mut prev_sep = false;
    let mut i: usize = 0;
    while i < len
        invariant
            0 <= i <= len,
            len == s@.len(),
            normalized_of(s@) == out@ + norm_from(s@, i as int, prev_sep),
        decreases len - i,
    {
        let c = s.get_char(i);
        let u = c as u32;
        if c == '-' || c == '_' || c == '.' {
            if !prev_sep {
                out.push('-');
            }
            prev_sep = true;
        } else {
            if 65 <= u && u <= 90 {
                out.push(((u + 32) as u8) as char);
            } else {
                out.push(c);
            }
            prev_sep = false;
        }
        proof {
            assert(normalized_of(s@) == out@ + norm_from(s@, i + 1 as int, prev_sep));
        }
        i = i + 1;
    }
    chars_to_string(&out)
}

/// A package name held in normalized form: equality is case- and
/// separator-insensitive equality of the spelled name.
#[derive(Debug)]
pub struct PackageName {
    value: String,
}

impl View for PackageName {
    type V = Seq<char>;

    closed spec fn view(&self) -> Seq<char> {
        self.value@
    }
}

impl PackageName {
    /// Normalizes `name` and wraps it.
    pub fn new(name: &str) -> (r: PackageName)
        ensures
            r@ == normalized_of(name@),
    {
        PackageName { value: normalize(name) }
    }

    /// The normalized name as a string.
    pub fn as_str(&self) -> (r: &str)
        ensures
            r@ == self@,
    {
        self.value.as_str()
    }
}

impl Clone for PackageName {
    /// Cloning preserves the name.
    fn clone(&self) -> (res: PackageName)
        ensures
            res@ == self@,
    {
        PackageName { value: self.value.clone() }
    }
}

impl PartialEq for PackageName {
    fn eq(&self, other: &PackageName) -> (r: bool) {
        self.value == other.value
    }
}

impl vstd::std_specs::cmp::PartialEqSpecImpl for PackageName {
    open spec fn obeys_eq_spec() -> bool {
        true
    }

    open spec fn eq_spec(&self, other: &PackageName) -> bool {
        self@ == other@
    }
}

/// The name of an optional-dependency group, held in normalized form.
#[derive(Debug)]
pub struct ExtraName {
    value: String,
}

impl View for ExtraName {
    type V = Seq<char>;

    closed spec fn view(&self) -> Seq<char> {
        self.value@
    }
}

impl ExtraName {
    /// Normalizes `name` and wraps it.
    pub fn new(name: &str) -> (r: ExtraName)
        ensures
            r@ == normalized_of(name@),
    {
        ExtraName { value: normalize(name) }
    }

    /// The normalized group name as a string.
    pub fn as_str(&self) -> (r: &str)
        ensures
            r@ == self@,
    {
        self.value.as_str()
    }
}

impl Clone for ExtraName {
    /// Cloning preserves the name.
    fn clone(&self) -> (res: ExtraName)
        ensures
            res@ == self@,
    {
        ExtraName { value: self.value.clone() }
    }
}

impl PartialEq for ExtraName {
    fn eq(&self, other: &ExtraName) -> (r: bool) {
        self.value == other.value
    }
}

impl vstd::std_specs::cmp::PartialEqSpecImpl for ExtraName {
    open spec fn obeys_eq_spec() -> bool {
        true
    }

    open spec fn eq_spec(&self, other: &ExtraName) -> bool {
        self@ == other@
    }
}

} // verus!
