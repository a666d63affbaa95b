use vstd::prelude::*;

verus! {

/// The byte that ends every record on the wire.
pub const NEWLINE: u8 = 10;

/// Ends an encoded record with its newline. A body that already holds a
/// newline cannot be framed, since it would read back as two records.
pub fn frame(body: Vec<u8>) -> (r: Option<Vec<u8>>)
    ensures
        !body@.contains(NEWLINE) <==> r is Some,
        r matches Some(v) ==> v@ == body@.push(NEWLINE),
{
    let mut i: usize = 0;
    while i < body.len()
        invariant
            i <= body@.len(),
            forall|j: int| 0 <= j < i ==> body@[j] != NEWLINE,
        decreases body@.len() - i,
    {
        if body[i] == NEWLINE {
            return None;
        }
        i = i + 1;
    }
    let mut v = body;
    v.push(NEWLINE);
    Some(v)
}

/// Splits the first complete record off the front of `buf`: the bytes before
/// the first newline are returned, and they and the newline leave the buffer.
/// Without a newline the buffer holds no complete record and is left alone.
pub fn take_record(buf: &mut Vec<u8>) -> (r: Option<Vec<u8>>)
    ensures
        old(buf)@.contains(NEWLINE) <==> r is Some,
        r is None ==> final(buf)@ == old(buf)@,
        r matches Some(rec) ==> !rec@.contains(NEWLINE) && old(buf)@ == rec@ + seq![NEWLINE]
            + final(buf)@,
{
    let n = buf.len();
    let mut i: usize = 0;
    while i < n && buf[i] != NEWLINE
        invariant
            n == buf@.len(),
            i <= n,
            forall|j: int| 0 <= j < i ==> buf@[j] != NEWLINE,
        decreases n - i,
    {
        i = i + 1;
    }
    if i == n {
        return None;
    }
    let mut rec: Vec<u8> = Vec::new();
    let mut j: usize = 0;
    while j < i
        invariant
            i < n == buf@.len(),
            j <= i,
            rec@ == buf@.subrange(0, j as int),
        decreases i - j,
    {
        rec.push(buf[j]);
        j = j + 1;
    }
    let mut rest: Vec<u8> = Vec::new();
    let mut k: usize = i + 1;
    while k < n
        invariant
            i < n == buf@.len(),
            i + 1 <= k <= n,
            rest@ == buf@.subrange(i + 1, k as int),
        decreases n - k,
    {
        rest.push(buf[k]);
        k = k + 1;
    }
    proof {
        assert(rec@ =~= buf@.subrange(0, i as int));
        assert(buf@ =~= rec@ + seq![NEWLINE] + rest@);
        assert forall|x: int| 0 <= x < rec@.len() implies rec@[x] != NEWLINE by {}
    }
    *buf = rest;
    Some(rec)
}

} // verus!
