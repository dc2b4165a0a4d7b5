use vstd::prelude::*;

verus! {

/// What inflector's camel-case conversion makes of a name.
pub uninterp spec fn camel_case_of(s: Seq<char>) -> Seq<char>;

/// Relies on `inflector::cases::camelcase::to_camel_case`: a function of the
/// characters alone; an empty name stays empty.
#[verifier::external_body]
fn to_camel_case(s: &str) -> (r: String)
    ensures
        r@ == camel_case_of(s@),
        s@.len() == 0 ==> r@.len() == 0,
{
    inflector::cases::camelcase::to_camel_case(s)
}

/// `s` without the leading `prefix`, or `s` itself when it does not start with it.
pub open spec fn strip_prefix(s: Seq<char>, prefix: Seq<char>) -> Seq<char> {
    if prefix.len() <= s.len() && s.subrange(0, prefix.len() as int) == prefix {
        s.subrange(prefix.len() as int, s.len() as int)
    } else {
        s
    }
}

fn strip_prefix_str<'a>(s: &'a str, prefix: &str) -> (r: &'a str)
    ensures
        r@ == strip_prefix(s@, prefix@),
{
    let n = s.unicode_len();
    let m = prefix.unicode_len();
    if m > n {
        return s;
    }
    let mut i: usize = 0;
    while i < m
        invariant
            m <= n,
            n == s@.len(),
            m == prefix@.len(),
            i <= m,
            forall|j: int| 0 <= j < i ==> s@[j] == prefix@[j],
        decreases m - i,
    {
        if s.get_char(i) != prefix.get_char(i) {
            assert(s@.subrange(0, m as int)[i as int] != prefix@[i as int]);
            return s;
        }
        i = i + 1;
    }
    assert(s@.subrange(0, m as int) =~= prefix@);
    s.substring_char(m, n)
}

/// The interpreter-visible name of a native method: its camel-case form.
pub fn method_name(native: &str) -> (r: String)
    ensures
        r@ == camel_case_of(native@),
{
    to_camel_case(native)
}

/// The interpreter-visible name of a native getter: `get_` removed, then camel case.
pub fn getter_name(native: &str) -> (r: String)
    ensures
        r@ == camel_case_of(strip_prefix(native@, "get_"@)),
{
    to_camel_case(strip_prefix_str(native, "get_"))
}

/// The interpreter-visible name of a native setter: `set_` removed, then camel case.
pub fn setter_name(native: &str) -> (r: String)
    ensures
        r@ == camel_case_of(strip_prefix(native@, "set_"@)),
{
    to_camel_case(strip_prefix_str(native, "set_"))
}

} // verus!
