//! Byte-level views of text and the searches the parsers are built on.
use vstd::prelude::*;
use vstd::string::*;
use vstd::utf8::*;

verus! {

broadcast use vstd::string::group_string_axioms;

/// The bytes of an ASCII character sequence, one byte per character.
pub open spec fn ascii(s: Seq<char>) -> Seq<u8> {
    s.map_values(|c: char| c as u8)
}

/// `i` is the first position in `s` that holds `a` or `b`.
pub open spec fn is_first_of(s: Seq<u8>, i: int, a: u8, b: u8) -> bool {
    &&& 0 <= i < s.len()
    &&& (s[i] == a || s[i] == b)
    &&& forall|j: int| 0 <= j < i ==> s[j] != a && s[j] != b
}

/// The first position in `s` that holds `a` or `b`, if there is one.
pub open spec fn first_of(s: Seq<u8>, a: u8, b: u8) -> Option<int> {
    if exists|i: int| is_first_of(s, i, a, b) {
        Some(choose|i: int| is_first_of(s, i, a, b))
    } else {
        None
    }
}

/// The first position in `s` that holds `d`, if there is one.
pub open spec fn first_index(s: Seq<u8>, d: u8) -> Option<int> {
    first_of(s, d, d)
}

/// The part of `s` before position `i`.
pub open spec fn before(s: Seq<u8>, i: int) -> Seq<u8> {
    s.subrange(0, i)
}

/// The part of `s` after position `i`.
pub open spec fn after(s: Seq<u8>, i: int) -> Seq<u8> {
    s.subrange(i + 1, s.len() as int)
}

/// The first position holding `a` or `b` is the one `first_of` names.
pub proof fn lemma_first_of_unique(s: Seq<u8>, i: int, a: u8, b: u8)
    requires
        is_first_of(s, i, a, b),
    ensures
        first_of(s, a, b) == Some(i),
{
    let k = choose|k: int| is_first_of(s, k, a, b);
    assert(is_first_of(s, k, a, b));
    if k < i {
        assert(s[k] != a && s[k] != b);
    } else if i < k {
        assert(s[i] != a && s[i] != b);
    }
}

/// Where no position holds `a` or `b`, `first_of` names none.
pub proof fn lemma_first_of_none(s: Seq<u8>, a: u8, b: u8)
    requires
        forall|j: int| 0 <= j < s.len() ==> s[j] != a && s[j] != b,
    ensures
        first_of(s, a, b) is None,
{
    if exists|i: int| is_first_of(s, i, a, b) {
        let k = choose|i: int| is_first_of(s, i, a, b);
        assert(s[k] == a || s[k] == b);
    }
}

/// Where `s` holds `a` or `b` somewhere, a first such position exists.
pub proof fn lemma_first_of_some(s: Seq<u8>, j: int, a: u8, b: u8)
    requires
        0 <= j < s.len(),
        s[j] == a || s[j] == b,
    ensures
        first_of(s, a, b) is Some,
    decreases j,
{
    if forall|k: int| 0 <= k < j ==> s[k] != a && s[k] != b {
        assert(is_first_of(s, j, a, b));
    } else {
        let k = choose|k: int| 0 <= k < j && !(s[k] != a && s[k] != b);
        lemma_first_of_some(s, k, a, b);
    }
}

/// Positions before the first `a` or `b` hold neither; with none, no position does.
pub proof fn lemma_first_of_facts(s: Seq<u8>, a: u8, b: u8)
    ensures
        first_of(s, a, b) matches Some(i) ==> is_first_of(s, i, a, b),
        first_of(s, a, b) is None ==> forall|j: int| 0 <= j < s.len() ==> s[j] != a && s[j] != b,
{
    if first_of(s, a, b) is None {
        assert forall|j: int| 0 <= j < s.len() implies s[j] != a && s[j] != b by {
            if !(s[j] != a && s[j] != b) {
                lemma_first_of_some(s, j, a, b);
            }
        }
    }
}

/// The first position in `s` that holds `a` or `b`.
pub fn find_either(s: &[u8], a: u8, b: u8) -> (r: Option<usize>)
    ensures
        r matches Some(i) ==> first_of(s@, a, b) == Some(i as int),
        r is None ==> first_of(s@, a, b) is None,
{
    let mut i: usize = 0;
    while i < s.len()
        invariant
            0 <= i <= s@.len(),
            forall|j: int| 0 <= j < i ==> s@[j] != a && s@[j] != b,
        decreases s@.len() - i,
    {
        if s[i] == a || s[i] == b {
            proof {
                lemma_first_of_unique(s@, i as int, a, b);
            }
            return Some(i);
        }
        i = i + 1;
    }
    proof {
        lemma_first_of_none(s@, a, b);
    }
    None
}

/// Whether two byte slices hold the same bytes.
pub fn same_bytes(x: &[u8], y: &[u8]) -> (r: bool)
    ensures
        r == (x@ == y@),
{
    if x.len() != y.len() {
        return false;
    }
    let mut i: usize = 0;
    while i < x.len()
        invariant
            x@.len() == y@.len(),
            0 <= i <= x@.len(),
            forall|j: int| 0 <= j < i ==> x@[j] == y@[j],
        decreases x@.len() - i,
    {
        if x[i] != y[i] {
            return false;
        }
        i = i + 1;
    }
    assert(x@ =~= y@);
    true
}

/// Whether the bytes of `s` are those of the ASCII literal `lit`.
pub fn text_is(s: &str, lit: &str) -> (r: bool)
    requires
        is_ascii(lit),
    ensures
        r == (s.spec_bytes() == ascii(lit@)),
{
    same_bytes(s.as_bytes(), literal_bytes(lit))
}

/// The bytes of an ASCII literal.
pub fn literal_bytes(lit: &str) -> (r: &[u8])
    requires
        is_ascii(lit),
    ensures
        r@ == ascii(lit@),
{
    proof {
        assert(lit.spec_bytes() =~= ascii(lit@));
    }
    lit.as_bytes()
}

/// Appends the bytes `s` to `out`.
pub fn append_bytes(out: &mut Vec<u8>, s: &[u8])
    ensures
        final(out)@ == old(out)@ + s@,
{
    let ghost start = out@;
    let mut i: usize = 0;
    while i < s.len()
        invariant
            0 <= i <= s@.len(),
            out@ == start + s@.subrange(0, i as int),
        decreases s@.len() - i,
    {
        out.push(s[i]);
        proof {
            assert(s@.subrange(0, i + 1) =~= s@.subrange(0, i as int).push(s@[i as int]));
        }
        i = i + 1;
    }
    assert(s@.subrange(0, s@.len() as int) =~= s@);
}

/// Splits `s` around the ASCII byte at position `i`, leaving that byte out.
/// Both parts borrow from `s`.
pub fn split_around<'a>(s: &'a str, i: usize) -> (r: (&'a str, &'a str))
    requires
        0 <= i < s.spec_bytes().len(),
        s.spec_bytes()[i as int] < 0x80,
    ensures
        r.0.spec_bytes() == before(s.spec_bytes(), i as int),
        r.1.spec_bytes() == after(s.spec_bytes(), i as int),
{
    let ghost b = s.spec_bytes();
    proof {
        encode_utf8_valid_utf8(s@);
        is_char_boundary_iff_not_is_continuation_byte(b, i as int);
    }
    let (x, rest) = s.split_at(i);
    proof {
        valid_utf8_split(b, i as int);
        let rb = rest.spec_bytes();
        assert(rb =~= b.subrange(i as int, b.len() as int));
        assert(length_of_first_scalar(rb) == 1);
        is_char_boundary_start_end_of_seq(pop_first_scalar(rb));
        reveal_with_fuel(is_char_boundary, 2);
        assert(is_char_boundary(rb, 1));
    }
    let (_, y) = rest.split_at(1);
    (x, y)
}

} // verus!
