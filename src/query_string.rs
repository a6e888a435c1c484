//! Decoding of `key=value&...` query strings into a multi-valued mapping.
use vstd::prelude::*;
use vstd::string::*;
use crate::text::{after, before, find_either, first_index, same_bytes, split_around};

verus! {

broadcast use vstd::string::group_string_axioms;

/// The byte `&`, which separates the pairs of a query string.
pub const AMPERSAND: u8 = 38;

/// The byte `=`, which separates a key from its value.
pub const EQUALS: u8 = 61;

/// The value (or values) given for one key, borrowed from the decoded text.
#[derive(Debug)]
pub enum Value<'buf> {
    Single(&'buf str),
    Multiple(Vec<&'buf str>),
}

impl<'buf> Value<'buf> {
    /// The values in the order they were met.
    pub open spec fn values(&self) -> Seq<Seq<u8>> {
        match self {
            Value::Single(s) => seq![s.spec_bytes()],
            Value::Multiple(v) => v@.map_values(|x: &'buf str| x.spec_bytes()),
        }
    }

    /// A key met more than once holds all its values; one met once holds one.
    pub open spec fn wf(&self) -> bool {
        match self {
            Value::Single(_) => true,
            Value::Multiple(v) => v@.len() >= 2,
        }
    }
}

/// The `&`-separated pieces of `s`, in order; an empty `s` is one empty piece.
pub open spec fn pieces(s: Seq<u8>) -> Seq<Seq<u8>>
    decreases s.len(),
{
    if exists|i: int| crate::text::is_first_of(s, i, AMPERSAND, AMPERSAND) {
        let i = choose|i: int| crate::text::is_first_of(s, i, AMPERSAND, AMPERSAND);
        seq![before(s, i)] + pieces(after(s, i))
    } else {
        seq![s]
    }
}

/// The key of a piece: what stands before its first `=`, or all of it.
pub open spec fn key_of(f: Seq<u8>) -> Seq<u8> {
    match first_index(f, EQUALS) {
        Some(i) => before(f, i),
        None => f,
    }
}

/// The value of a piece: what stands after its first `=`, or nothing.
pub open spec fn value_of(f: Seq<u8>) -> Seq<u8> {
    match first_index(f, EQUALS) {
        Some(i) => after(f, i),
        None => Seq::empty(),
    }
}

/// Adds one more value for key `k`: appended to those already there.
pub open spec fn upsert(m: Map<Seq<u8>, Seq<Seq<u8>>>, k: Seq<u8>, v: Seq<u8>) -> Map<
    Seq<u8>,
    Seq<Seq<u8>>,
> {
    if m.contains_key(k) {
        m.insert(k, m[k].push(v))
    } else {
        m.insert(k, seq![v])
    }
}

/// The mapping that the pieces `fs` give, taken in order.
pub open spec fn fold_pieces(fs: Seq<Seq<u8>>) -> Map<Seq<u8>, Seq<Seq<u8>>>
    decreases fs.len(),
{
    if fs.len() == 0 {
        Map::empty()
    } else {
        upsert(fold_pieces(fs.drop_last()), key_of(fs.last()), value_of(fs.last()))
    }
}

/// What a query string decodes to: each key with all its values, in order.
pub open spec fn decode_query(s: Seq<u8>) -> Map<Seq<u8>, Seq<Seq<u8>>> {
    fold_pieces(pieces(s))
}

/// The values of the pieces among `fs` whose key is `k`, in order.
pub open spec fn values_for(fs: Seq<Seq<u8>>, k: Seq<u8>) -> Seq<Seq<u8>> {
    fs.filter(|f: Seq<u8>| key_of(f) == k).map_values(|f: Seq<u8>| value_of(f))
}

proof fn lemma_fold_values(fs: Seq<Seq<u8>>, k: Seq<u8>)
    ensures
        fold_pieces(fs).contains_key(k) <==> exists|i: int|
            0 <= i < fs.len() && key_of(fs[i]) == k,
        fold_pieces(fs).contains_key(k) ==> fold_pieces(fs)[k] == values_for(fs, k),
        !fold_pieces(fs).contains_key(k) ==> values_for(fs, k).len() == 0,
    decreases fs.len(),
{
    reveal(Seq::filter);
    if fs.len() > 0 {
        let init = fs.drop_last();
        let f = fs.last();
        lemma_fold_values(init, k);
        assert(fs =~= init.push(f));
        if exists|i: int| 0 <= i < fs.len() && key_of(fs[i]) == k {
            if key_of(f) != k {
                let i = choose|i: int| 0 <= i < fs.len() && key_of(fs[i]) == k;
                assert(i < init.len() && key_of(init[i]) == k);
            }
        }
        if exists|i: int| 0 <= i < init.len() && key_of(init[i]) == k {
            let i = choose|i: int| 0 <= i < init.len() && key_of(init[i]) == k;
            assert(key_of(fs[i]) == k);
        }
        if key_of(f) == k {
            assert(key_of(fs[fs.len() - 1]) == k);
        }
        assert(values_for(fs, k) =~= if key_of(f) == k {
            values_for(init, k).push(value_of(f))
        } else {
            values_for(init, k)
        });
    }
}

/// Decoding keeps every value: a key is present exactly when some piece of
/// the query string has it, and its values are those pieces' values in the
/// order the pieces come.
pub proof fn lemma_decoded_values(s: Seq<u8>, k: Seq<u8>)
    ensures
        decode_query(s).contains_key(k) <==> exists|i: int|
            0 <= i < pieces(s).len() && key_of(pieces(s)[i]) == k,
        decode_query(s).contains_key(k) ==> decode_query(s)[k] == values_for(pieces(s), k),
{
    lemma_fold_values(pieces(s), k);
}

/// `d[i]` holds key `k`.
pub open spec fn has_key_at<'buf>(d: Seq<(&'buf str, Value<'buf>)>, i: int, k: Seq<u8>) -> bool {
    0 <= i < d.len() && d[i].0.spec_bytes() == k
}

/// The mapping that a list of entries stands for.
pub open spec fn entries_view<'buf>(d: Seq<(&'buf str, Value<'buf>)>) -> Map<
    Seq<u8>,
    Seq<Seq<u8>>,
> {
    Map::new(
        |k: Seq<u8>| exists|i: int| has_key_at(d, i, k),
        |k: Seq<u8>| d[choose|i: int| has_key_at(d, i, k)].1.values(),
    )
}

/// Keys are unique and each value is well formed.
pub open spec fn entries_wf<'buf>(d: Seq<(&'buf str, Value<'buf>)>) -> bool {
    &&& forall|i: int, j: int|
        0 <= i < d.len() && 0 <= j < d.len() && i != j ==> d[i].0.spec_bytes()
            != d[j].0.spec_bytes()
    &&& forall|i: int| 0 <= i < d.len() ==> (#[trigger] d[i]).1.wf()
}

proof fn lemma_entries_at<'buf>(d: Seq<(&'buf str, Value<'buf>)>, i: int)
    requires
        entries_wf(d),
        0 <= i < d.len(),
    ensures
        entries_view(d).contains_key(d[i].0.spec_bytes()),
        entries_view(d)[d[i].0.spec_bytes()] == d[i].1.values(),
{
    let k = d[i].0.spec_bytes();
    assert(has_key_at(d, i, k));
    let j = choose|j: int| has_key_at(d, j, k);
    assert(has_key_at(d, j, k));
    assert(i == j);
}

proof fn lemma_entries_update<'buf>(
    d: Seq<(&'buf str, Value<'buf>)>,
    i: int,
    e: (&'buf str, Value<'buf>),
)
    requires
        entries_wf(d),
        0 <= i < d.len(),
        e.0.spec_bytes() == d[i].0.spec_bytes(),
        e.1.wf(),
    ensures
        entries_wf(d.update(i, e)),
        entries_view(d.update(i, e)) == entries_view(d).insert(e.0.spec_bytes(), e.1.values()),
{
    let d2 = d.update(i, e);
    assert forall|j: int| 0 <= j < d2.len() implies (#[trigger] d2[j]).1.wf() by {
        if j != i {
            assert(d2[j] == d[j]);
            assert(d[j].1.wf());
        }
    }
    assert(entries_wf(d2));
    let m1 = entries_view(d2);
    let m2 = entries_view(d).insert(e.0.spec_bytes(), e.1.values());
    assert forall|k: Seq<u8>| m1.contains_key(k) <==> m2.contains_key(k) by {
        if m1.contains_key(k) {
            let j = choose|j: int| has_key_at(d2, j, k);
            if j != i {
                assert(has_key_at(d, j, k));
            }
        }
        if m2.contains_key(k) && k != e.0.spec_bytes() {
            let j = choose|j: int| has_key_at(d, j, k);
            assert(has_key_at(d2, j, k));
        }
        if k == e.0.spec_bytes() {
            assert(has_key_at(d2, i, k));
        }
    }
    assert forall|k: Seq<u8>| #[trigger] m1.contains_key(k) implies m1[k] == m2[k] by {
        let j = choose|j: int| has_key_at(d2, j, k);
        assert(has_key_at(d2, j, k));
        lemma_entries_at(d2, j);
        if j != i {
            assert(d2[j] == d[j]);
            lemma_entries_at(d, j);
        }
    }
    assert(m1 =~= m2);
}

proof fn lemma_entries_push<'buf>(d: Seq<(&'buf str, Value<'buf>)>, e: (&'buf str, Value<'buf>))
    requires
        entries_wf(d),
        !entries_view(d).contains_key(e.0.spec_bytes()),
        e.1.wf(),
    ensures
        entries_wf(d.push(e)),
        entries_view(d.push(e)) == entries_view(d).insert(e.0.spec_bytes(), e.1.values()),
{
    let d2 = d.push(e);
    let n = d.len() as int;
    assert forall|j: int| 0 <= j < n implies d2[j] == d[j] && d[j].0.spec_bytes()
        != e.0.spec_bytes() by {
        if d[j].0.spec_bytes() == e.0.spec_bytes() {
            assert(has_key_at(d, j, e.0.spec_bytes()));
        }
    }
    assert forall|j: int| 0 <= j < d2.len() implies (#[trigger] d2[j]).1.wf() by {
        if j < n {
            assert(d[j].1.wf());
        }
    }
    assert(entries_wf(d2));
    let m1 = entries_view(d2);
    let m2 = entries_view(d).insert(e.0.spec_bytes(), e.1.values());
    assert forall|k: Seq<u8>| m1.contains_key(k) <==> m2.contains_key(k) by {
        if m1.contains_key(k) {
            let j = choose|j: int| has_key_at(d2, j, k);
            if j < n {
                assert(has_key_at(d, j, k));
            }
        }
        if m2.contains_key(k) && k != e.0.spec_bytes() {
            let j = choose|j: int| has_key_at(d, j, k);
            assert(has_key_at(d2, j, k));
        }
        if k == e.0.spec_bytes() {
            assert(has_key_at(d2, n, k));
        }
    }
    assert forall|k: Seq<u8>| #[trigger] m1.contains_key(k) implies m1[k] == m2[k] by {
        let j = choose|j: int| has_key_at(d2, j, k);
        assert(has_key_at(d2, j, k));
        lemma_entries_at(d2, j);
        if j < n {
            lemma_entries_at(d, j);
        }
    }
    assert(m1 =~= m2);
}

/// The decoded query string of a request: each key with its value or values.
#[derive(Debug)]
pub struct QueryString<'buf> {
    data: Vec<(&'buf str, Value<'buf>)>,
}

impl<'buf> QueryString<'buf> {
    /// Each key with all its values, in the order they were met.
    pub closed spec fn view(&self) -> Map<Seq<u8>, Seq<Seq<u8>>> {
        entries_view(self.data@)
    }

    /// Keys are unique, and a key holds `Multiple` exactly when it has several values.
    #[verifier::type_invariant]
    spec fn keys_unique(&self) -> bool {
        entries_wf(self.data@)
    }
}


/// The position of the entry with key `key`, if there is one.
fn find_key<'buf>(data: &Vec<(&'buf str, Value<'buf>)>, key: &str) -> (r: Option<usize>)
    requires
        entries_wf(data@),
    ensures
        r matches Some(i) ==> i < data@.len() && data@[i as int].0.spec_bytes()
            == key.spec_bytes(),
        r is None ==> !entries_view(data@).contains_key(key.spec_bytes()),
{
    let mut i: usize = 0;
    while i < data.len()
        invariant
            0 <= i <= data@.len(),
            forall|j: int| 0 <= j < i ==> data@[j].0.spec_bytes() != key.spec_bytes(),
        decreases data@.len() - i,
    {
        if same_bytes(data[i].0.as_bytes(), key.as_bytes()) {
            return Some(i);
        }
        i = i + 1;
    }
    proof {
        if entries_view(data@).contains_key(key.spec_bytes()) {
            let j = choose|j: int| has_key_at(data@, j, key.spec_bytes());
            assert(has_key_at(data@, j, key.spec_bytes()));
        }
    }
    None
}

/// Records one more value for `key`: a first value is `Single`, a second
/// turns it into `Multiple` of both, and later ones are appended.
fn add_value<'buf>(data: &mut Vec<(&'buf str, Value<'buf>)>, key: &'buf str, val: &'buf str)
    requires
        entries_wf(old(data)@),
    ensures
        entries_wf(final(data)@),
        entries_view(final(data)@) == upsert(
            entries_view(old(data)@),
            key.spec_bytes(),
            val.spec_bytes(),
        ),
{
    match find_key(data, key) {
        Some(i) => {
            proof {
                lemma_entries_at(data@, i as int);
            }
            let ghost d0 = data@;
            let mut entry = (key, Value::Single(val));
            data.set_and_swap(i, &mut entry);
            let (k, prev) = entry;
            let next = match prev {
                Value::Single(p) => {
                    let mut v: Vec<&'buf str> = Vec::new();
                    v.push(p);
                    v.push(val);
                    Value::Multiple(v)
                },
                Value::Multiple(mut v) => {
                    v.push(val);
                    Value::Multiple(v)
                },
            };
            proof {
                assert(d0[i as int].1.wf());
                assert(next.values() =~= d0[i as int].1.values().push(val.spec_bytes()));
            }
            let mut entry = (k, next);
            data.set_and_swap(i, &mut entry);
            proof {
                assert(data@ == d0.update(i as int, (k, next)));
                lemma_entries_update(d0, i as int, (k, next));
            }
        },
        None => {
            proof {
                lemma_entries_push(data@, (key, Value::Single(val)));
            }
            data.push((key, Value::Single(val)));
        },
    }
}

/// Splits a piece at its first `=` into key and value; without one, the
/// whole piece is the key and the value is empty.
fn split_piece<'buf>(piece: &'buf str) -> (r: (&'buf str, &'buf str))
    ensures
        r.0.spec_bytes() == key_of(piece.spec_bytes()),
        r.1.spec_bytes() == value_of(piece.spec_bytes()),
{
    match find_either(piece.as_bytes(), EQUALS, EQUALS) {
        Some(i) => split_around(piece, i),
        None => {
            proof {
                reveal_strlit("");
            }
            (piece, "")
        },
    }
}

impl<'buf> QueryString<'buf> {
    /// Decodes a query string. This never fails: every `&`-separated piece
    /// becomes a key and a value, borrowed from `s`.
    pub fn from(s: &'buf str) -> (r: QueryString<'buf>)
        ensures
            r@ == decode_query(s.spec_bytes()),
    {
        let mut data: Vec<(&'buf str, Value<'buf>)> = Vec::new();
        let mut rest: &'buf str = s;
        let ghost mut done: Seq<Seq<u8>> = seq![];
        proof {
            assert(entries_view(data@) =~= fold_pieces(done));
            assert(pieces(s.spec_bytes()) =~= done + pieces(rest.spec_bytes()));
        }
        loop
            invariant_except_break
                entries_view(data@) == fold_pieces(done),
                pieces(s.spec_bytes()) == done + pieces(rest.spec_bytes()),
            invariant
                entries_wf(data@),
            ensures
                entries_wf(data@),
                entries_view(data@) == fold_pieces(pieces(s.spec_bytes())),
            decreases rest.spec_bytes().len(),
        {
            let ghost rb = rest.spec_bytes();
            match find_either(rest.as_bytes(), AMPERSAND, AMPERSAND) {
                Some(i) => {
                    let (piece, tail) = split_around(rest, i);
                    let (k, v) = split_piece(piece);
                    add_value(&mut data, k, v);
                    proof {
                        let pb = piece.spec_bytes();
                        assert(crate::text::is_first_of(rb, i as int, AMPERSAND, AMPERSAND));
                        assert(pieces(rb) == seq![pb] + pieces(tail.spec_bytes()));
                        assert(done.push(pb).drop_last() =~= done);
                        assert(done.push(pb) + pieces(tail.spec_bytes()) =~= done + pieces(rb));
                        done = done.push(pb);
                    }
                    rest = tail;
                },
                None => {
                    let (k, v) = split_piece(rest);
                    add_value(&mut data, k, v);
                    proof {
                        assert(!exists|j: int| crate::text::is_first_of(rb, j, AMPERSAND, AMPERSAND));
                        assert(pieces(rb) == seq![rb]);
                        assert(done.push(rb).drop_last() =~= done);
                        assert(done + pieces(rb) =~= done.push(rb));
                    }
                    break;
                },
            }
        }
        QueryString { data }
    }

    /// The value or values given for `key`, compared exactly.
    pub fn get(&self, key: &str) -> (r: Option<&Value<'buf>>)
        ensures
            r is Some <==> self@.contains_key(key.spec_bytes()),
            r matches Some(v) ==> v.wf() && v.values() == self@[key.spec_bytes()],
            r matches Some(v) ==> (v is Single <==> self@[key.spec_bytes()].len() == 1),
    {
        proof {
            use_type_invariant(self);
        }
        match find_key(&self.data, key) {
            Some(i) => {
                proof {
                    lemma_entries_at(self.data@, i as int);
                }
                Some(&self.data[i].1)
            },
            None => None,
        }
    }
}

} // verus!
