//! Small byte-sequence helpers shared by the wire-format parsers.

use vstd::prelude::*;

verus! {

/// Whether two byte slices hold the same bytes.
pub fn bytes_eq(a: &[u8], b: &[u8]) -> (r: bool)
    ensures
        r == (a@ == b@),
{
    if a.len() != b.len() {
        assert(a@ != b@);
        return false;
    }
    let n: usize = a.len();
    let mut i: usize = 0;
    while i < n
        invariant
            n == a@.len(),
            a@.len() == b@.len(),
            0 <= i <= n,
            forall|k: int| 0 <= k < i ==> a@[k] == b@[k],
        decreases n - i,
    {
        if a[i] != b[i] {
            return false;
        }
        i = i + 1;
    }
    proof {
        assert(a@ =~= b@);
    }
    true
}

/// The position of the first occurrence of `needle` in `s`, if any.
pub open spec fn find_first(s: Seq<u8>, needle: u8) -> Option<int>
    decreases s.len(),
{
    if s.len() == 0 {
        None
    } else if s[0] == needle {
        Some(0)
    } else {
        match find_first(s.skip(1), needle) {
            Some(i) => Some(i + 1),
            None => None,
        }
    }
}

/// What `find_first` returns: the least index holding `needle`.
pub proof fn lemma_find_first(s: Seq<u8>, needle: u8)
    ensures
        match find_first(s, needle) {
            Some(i) => 0 <= i < s.len() && s[i] == needle
                && forall|k: int| 0 <= k < i ==> s[k] != needle,
            None => forall|k: int| 0 <= k < s.len() ==> s[k] != needle,
        },
    decreases s.len(),
{
    if s.len() != 0 && s[0] != needle {
        lemma_find_first(s.skip(1), needle);
        assert forall|k: int| 1 <= k < s.len() implies s[k] == s.skip(1)[k - 1] by {}
    }
}

/// Finds the first occurrence of `needle` in `s`.
pub fn find_byte(s: &[u8], needle: u8) -> (r: Option<usize>)
    ensures
        match r {
            Some(i) => find_first(s@, needle) == Some(i as int),
            None => find_first(s@, needle) == None::<int>,
        },
{
    proof {
        lemma_find_first(s@, needle);
    }
    let n: usize = s.len();
    let mut i: usize = 0;
    while i < n
        invariant
            n == s@.len(),
            0 <= i <= n,
            forall|k: int| 0 <= k < i ==> s@[k] != needle,
        decreases n - i,
    {
        if s[i] == needle {
            proof {
                lemma_find_first_unique(s@, needle, i as int);
            }
            return Some(i);
        }
        i = i + 1;
    }
    None
}

/// A position that holds `needle`, before which no position does, is the
/// one `find_first` returns.
pub proof fn lemma_find_first_unique(s: Seq<u8>, needle: u8, i: int)
    requires
        0 <= i < s.len(),
        s[i] == needle,
        forall|k: int| 0 <= k < i ==> s[k] != needle,
    ensures
        find_first(s, needle) == Some(i),
{
    lemma_find_first(s, needle);
    match find_first(s, needle) {
        Some(j) => {
            if j < i {
                assert(s[j] != needle);
            }
            if i < j {
                assert(s[i] != needle);
            }
        },
        None => {
            assert(s[i] != needle);
        },
    }
}

/// Pushes all of `bytes` onto the end of `out`.
pub fn push_bytes(out: &mut Vec<u8>, bytes: &[u8])
    ensures
        final(out)@ == old(out)@ + bytes@,
{
    let n: usize = bytes.len();
    let mut i: usize = 0;
    while i < n
        invariant
            n == bytes@.len(),
            0 <= i <= n,
            out@ == old(out)@ + bytes@.take(i as int),
        decreases n - i,
    {
        out.push(bytes[i]);
        proof {
            assert(old(out)@ + bytes@.take(i + 1) =~= (old(out)@ + bytes@.take(i as int)).push(bytes@[i as int]));
        }
        i = i + 1;
    }
    proof {
        assert(bytes@.take(n as int) =~= bytes@);
    }
}

/// The chunks of `s` between occurrences of `sep`, in order, empty
/// chunks included: an empty input yields one empty chunk.
pub open spec fn split_on(s: Seq<u8>, sep: u8) -> Seq<Seq<u8>>
    decreases s.len(),
{
    if s.len() == 0 {
        seq![Seq::<u8>::empty()]
    } else if s[0] == sep {
        seq![Seq::<u8>::empty()] + split_on(s.skip(1), sep)
    } else {
        let rest = split_on(s.skip(1), sep);
        seq![seq![s[0]] + rest[0]] + rest.skip(1)
    }
}

pub proof fn lemma_split_on_len(s: Seq<u8>, sep: u8)
    ensures
        split_on(s, sep).len() >= 1,
    decreases s.len(),
{
    if s.len() != 0 {
        lemma_split_on_len(s.skip(1), sep);
    }
}

/// `split_on` decomposes at the first separator: none means one chunk,
/// the whole input; otherwise the part before the first separator is
/// the first chunk and the rest splits on its own.
pub proof fn lemma_split_on_decompose(s: Seq<u8>, sep: u8)
    ensures
        match find_first(s, sep) {
            None => split_on(s, sep) =~~= seq![s],
            Some(i) => split_on(s, sep) =~~= seq![s.take(i)] + split_on(s.skip(i + 1), sep),
        },
    decreases s.len(),
{
    lemma_find_first(s, sep);
    if s.len() == 0 {
        assert(split_on(s, sep) =~~= seq![s]);
    } else if s[0] == sep {
        assert(find_first(s, sep) == Some(0int));
        assert(s.take(0) =~= Seq::<u8>::empty());
        assert(split_on(s, sep) =~~= seq![s.take(0)] + split_on(s.skip(1), sep));
    } else {
        lemma_split_on_decompose(s.skip(1), sep);
        lemma_split_on_len(s.skip(1), sep);
        match find_first(s, sep) {
            None => {
                assert(find_first(s.skip(1), sep) == None::<int>);
                assert(split_on(s.skip(1), sep) =~~= seq![s.skip(1)]);
                assert(seq![s[0]] + s.skip(1) =~= s);
                assert(split_on(s, sep) =~~= seq![s]);
            },
            Some(i) => {
                assert(find_first(s.skip(1), sep) == Some(i - 1));
                let rest = split_on(s.skip(1), sep);
                assert(rest =~~= seq![s.skip(1).take(i - 1)] + split_on(s.skip(1).skip(i), sep));
                assert(seq![s[0]] + s.skip(1).take(i - 1) =~= s.take(i));
                assert(s.skip(1).skip(i) =~= s.skip(i + 1));
                assert(split_on(s, sep) =~~= seq![s.take(i)] + split_on(s.skip(i + 1), sep));
            },
        }
    }
}

} // verus!
