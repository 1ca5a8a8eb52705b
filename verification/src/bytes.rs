//! Byte strings and account lists.
use vstd::prelude::*;

verus! {

/// Compares two byte strings.
pub fn bytes_eq(a: &Vec<u8>, b: &Vec<u8>) -> (r: bool)
    ensures
        r == (a@ == b@),
{
    if a.len() != b.len() {
        return false;
    }
    let mut i: usize = 0;
    while i < a.len()
        invariant
            a.len() == b.len(),
            i <= a.len(),
            forall|j: int| 0 <= j < i ==> a@[j] == b@[j],
        decreases a.len() - i,
    {
        if a[i] != b[i] {
            return false;
        }
        i = i + 1;
    }
    assert(a@ =~= b@);
    true
}

/// Copies a byte string.
pub fn copy_bytes(a: &Vec<u8>) -> (r: Vec<u8>)
    ensures
        r@ == a@,
{
    let mut r: Vec<u8> = Vec::new();
    let mut i: usize = 0;
    while i < a.len()
        invariant
            i <= a.len(),
            r@ == a@.subrange(0, i as int),
        decreases a.len() - i,
    {
        r.push(a[i]);
        i = i + 1;
        assert(r@ =~= a@.subrange(0, i as int));
    }
    assert(a@.subrange(0, a.len() as int) =~= a@);
    r
}

/// The first `n` bytes of `a`.
pub fn prefix_bytes(a: &Vec<u8>, n: usize) -> (r: Vec<u8>)
    requires
        n <= a.len(),
    ensures
        r@ == a@.subrange(0, n as int),
{
    let mut r: Vec<u8> = Vec::new();
    let mut i: usize = 0;
    while i < n
        invariant
            n <= a.len(),
            i <= n,
            r@ == a@.subrange(0, i as int),
        decreases n - i,
    {
        r.push(a[i]);
        i = i + 1;
        assert(r@ =~= a@.subrange(0, i as int));
    }
    r
}

/// Whether `accs` holds `acc`.
pub fn contains_account(accs: &Vec<u64>, acc: u64) -> (r: bool)
    ensures
        r == accs@.contains(acc),
{
    let mut i: usize = 0;
    while i < accs.len()
        invariant
            i <= accs.len(),
            forall|j: int| 0 <= j < i ==> accs@[j] != acc,
        decreases accs.len() - i,
    {
        if accs[i] == acc {
            assert(accs@[i as int] == acc);
            return true;
        }
        i = i + 1;
    }
    false
}

/// The views of a list of byte strings.
pub open spec fn bytes_list(l: Seq<Vec<u8>>) -> Seq<Seq<u8>> {
    l.map_values(|v: Vec<u8>| v@)
}

/// Whether the list of byte strings holds `s`.
pub fn contains_bytes(list: &Vec<Vec<u8>>, s: &Vec<u8>) -> (r: bool)
    ensures
        r == bytes_list(list@).contains(s@),
{
    let mut i: usize = 0;
    while i < list.len()
        invariant
            i <= list.len(),
            forall|j: int| 0 <= j < i ==> bytes_list(list@)[j] != s@,
        decreases list.len() - i,
    {
        if bytes_eq(&list[i], s) {
            assert(bytes_list(list@)[i as int] == s@);
            return true;
        }
        i = i + 1;
    }
    false
}

/// The byte strings of `list` other than `s`, in their order.
pub open spec fn without_bytes(list: Seq<Seq<u8>>, s: Seq<u8>) -> Seq<Seq<u8>> {
    list.filter(|x: Seq<u8>| x != s)
}

/// Keeps only the byte strings other than `s`.
pub fn retain_other_bytes(list: &Vec<Vec<u8>>, s: &Vec<u8>) -> (r: Vec<Vec<u8>>)
    ensures
        bytes_list(r@) == without_bytes(bytes_list(list@), s@),
{
    let mut r: Vec<Vec<u8>> = Vec::new();
    let mut i: usize = 0;
    while i < list.len()
        invariant
            i <= list.len(),
            bytes_list(r@) == without_bytes(bytes_list(list@).subrange(0, i as int), s@),
        decreases list.len() - i,
    {
        let ghost l = bytes_list(list@);
        proof {
            assert(l.subrange(0, i + 1).drop_last() =~= l.subrange(0, i as int));
            reveal(Seq::filter);
        }
        if !bytes_eq(&list[i], s) {
            let x = copy_bytes(&list[i]);
            r.push(x);
        }
        i = i + 1;
        proof {
            assert(bytes_list(r@) =~= without_bytes(l.subrange(0, i as int), s@));
        }
    }
    assert(bytes_list(list@).subrange(0, list.len() as int) =~= bytes_list(list@));
    r
}

} // verus!
