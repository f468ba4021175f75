use vstd::prelude::*;

verus! {

/// Line feed, the line separator of the wire protocol.
pub open spec fn lf() -> u8 {
    0x0A
}

/// Carriage return, stripped when it ends a line.
pub open spec fn cr() -> u8 {
    0x0D
}

/// A line with one trailing carriage return removed.
pub open spec fn strip_cr(l: Seq<u8>) -> Seq<u8> {
    if l.len() > 0 && l[l.len() - 1] == cr() {
        l.drop_last()
    } else {
        l
    }
}

/// One step per byte of the line-splitting scan: `cur` is the line being
/// collected, `acc` the lines already finished.  A final fragment without a
/// terminator is kept as written, carriage return included.
pub open spec fn split_nl_rec(s: Seq<u8>, i: int, cur: Seq<u8>, acc: Seq<Seq<u8>>) -> Seq<Seq<u8>>
    decreases s.len() - i,
{
    if i < 0 || i >= s.len() {
        if cur.len() > 0 {
            acc.push(cur)
        } else {
            acc
        }
    } else if s[i] == lf() {
        split_nl_rec(s, i + 1, Seq::empty(), acc.push(strip_cr(cur)))
    } else {
        split_nl_rec(s, i + 1, cur.push(s[i]), acc)
    }
}

/// The lines of the request text: split at line feeds, each line's trailing
/// carriage return removed, a trailing empty fragment dropped.
pub open spec fn spec_lines(s: Seq<u8>) -> Seq<Seq<u8>> {
    split_nl_rec(s, 0, Seq::empty(), Seq::empty())
}

/// The views of a sequence of byte vectors.
pub open spec fn views(vs: Seq<Vec<u8>>) -> Seq<Seq<u8>> {
    vs.map_values(|v: Vec<u8>| v@)
}

pub fn split_lines(b: &[u8]) -> (r: Vec<Vec<u8>>)
    ensures
        views(r@) == spec_lines(b@),
{
    let n = b.len();
    let mut acc: Vec<Vec<u8>> = Vec::new();
    let mut cur: Vec<u8> = Vec::new();
    let mut i: usize = 0;
    proof {
        assert(views(acc@) =~= Seq::<Seq<u8>>::empty());
        assert(cur@ =~= Seq::<u8>::empty());
    }
    while i < n
        invariant
            i <= n,
            n == b@.len(),
            spec_lines(b@) == split_nl_rec(b@, i as int, cur@, views(acc@)),
        decreases n - i,
    {
        let ghost acc0 = views(acc@);
        let ghost cur0 = cur@;
        if b[i] == 0x0A {
            if cur.len() > 0 && cur[cur.len() - 1] == 0x0D {
                cur.pop();
            }
            proof {
                assert(cur@ == strip_cr(cur0));
            }
            acc.push(cur);
            cur = Vec::new();
            proof {
                assert(views(acc@) =~= acc0.push(strip_cr(cur0)));
                assert(cur@ =~= Seq::<u8>::empty());
            }
        } else {
            cur.push(b[i]);
        }
        i = i + 1;
    }
    if cur.len() > 0 {
        let ghost acc0 = views(acc@);
        let ghost cur0 = cur@;
        acc.push(cur);
        proof {
            assert(views(acc@) =~= acc0.push(cur0));
        }
    }
    acc
}

/// The whitespace bytes that separate request-line tokens.
pub open spec fn is_ws_byte(x: u8) -> bool {
    x == 0x09 || x == 0x0A || x == 0x0B || x == 0x0C || x == 0x0D || x == 0x20
}

/// One step per byte of the tokenizing scan: whitespace finishes the token
/// being collected, empty tokens are never kept.
pub open spec fn split_ws_rec(s: Seq<u8>, i: int, cur: Seq<u8>, acc: Seq<Seq<u8>>) -> Seq<Seq<u8>>
    decreases s.len() - i,
{
    if i < 0 || i >= s.len() {
        if cur.len() > 0 {
            acc.push(cur)
        } else {
            acc
        }
    } else if is_ws_byte(s[i]) {
        split_ws_rec(
            s,
            i + 1,
            Seq::empty(),
            if cur.len() > 0 {
                acc.push(cur)
            } else {
                acc
            },
        )
    } else {
        split_ws_rec(s, i + 1, cur.push(s[i]), acc)
    }
}

/// The whitespace-separated tokens of a line.
pub open spec fn spec_tokens(s: Seq<u8>) -> Seq<Seq<u8>> {
    split_ws_rec(s, 0, Seq::empty(), Seq::empty())
}

pub fn split_ws(line: &Vec<u8>) -> (r: Vec<Vec<u8>>)
    ensures
        views(r@) == spec_tokens(line@),
{
    let n = line.len();
    let mut acc: Vec<Vec<u8>> = Vec::new();
    let mut cur: Vec<u8> = Vec::new();
    let mut i: usize = 0;
    proof {
        assert(views(acc@) =~= Seq::<Seq<u8>>::empty());
        assert(cur@ =~= Seq::<u8>::empty());
    }
    while i < n
        invariant
            i <= n,
            n == line@.len(),
            spec_tokens(line@) == split_ws_rec(line@, i as int, cur@, views(acc@)),
        decreases n - i,
    {
        let ghost acc0 = views(acc@);
        let ghost cur0 = cur@;
        let x = line[i];
        if x == 0x09 || x == 0x0A || x == 0x0B || x == 0x0C || x == 0x0D || x == 0x20 {
            if cur.len() > 0 {
                acc.push(cur);
                cur = Vec::new();
                proof {
                    assert(views(acc@) =~= acc0.push(cur0));
                }
            }
            proof {
                assert(cur@ =~= Seq::<u8>::empty());
            }
        } else {
            cur.push(x);
        }
        i = i + 1;
    }
    if cur.len() > 0 {
        let ghost acc0 = views(acc@);
        let ghost cur0 = cur@;
        acc.push(cur);
        proof {
            assert(views(acc@) =~= acc0.push(cur0));
        }
    }
    acc
}

/// The position of the first `": "` in a header line, or a negative value
/// when the line holds none.
pub open spec fn find_sep(l: Seq<u8>, i: int) -> int
    decreases l.len() - i,
{
    if i < 0 || i + 2 > l.len() {
        -1
    } else if l[i] == 0x3A && l[i + 1] == 0x20 {
        i
    } else {
        find_sep(l, i + 1)
    }
}

pub proof fn lemma_find_sep_props(l: Seq<u8>, j: int)
    ensures
        find_sep(l, j) >= 0 ==> j <= find_sep(l, j) && find_sep(l, j) + 2 <= l.len(),
    decreases l.len() - j,
{
    if !(j < 0 || j + 2 > l.len()) && !(l[j] == 0x3A && l[j + 1] == 0x20) {
        lemma_find_sep_props(l, j + 1);
    }
}

pub fn find_sep_at(line: &Vec<u8>) -> (r: Option<usize>)
    ensures
        r matches Some(i) ==> find_sep(line@, 0) == i as int,
        r is None ==> find_sep(line@, 0) < 0,
{
    let n = line.len();
    let mut i: usize = 0;
    while n >= 2 && i < n - 1
        invariant
            i <= n,
            n == line@.len(),
            find_sep(line@, 0) == find_sep(line@, i as int),
        decreases n - i,
    {
        if line[i] == 0x3A && line[i + 1] == 0x20 {
            return Some(i);
        }
        i = i + 1;
    }
    None
}

/// An ASCII letter mapped to lower case; every other byte kept.
pub open spec fn lower_byte(x: u8) -> u8 {
    if 0x41 <= x && x <= 0x5A {
        (x + 0x20) as u8
    } else {
        x
    }
}

/// Byte-sequence equality up to ASCII case.
pub open spec fn ci_eq(a: Seq<u8>, b: Seq<u8>) -> bool {
    a.len() == b.len() && (forall|i: int| 0 <= i < a.len() ==> lower_byte(a[i]) == lower_byte(b[i]))
}

pub fn ci_eq_bytes(a: &[u8], b: &[u8]) -> (r: bool)
    ensures
        r == ci_eq(a@, b@),
{
    if a.len() != b.len() {
        return false;
    }
    let n = a.len();
    let mut i: usize = 0;
    while i < n
        invariant
            i <= n,
            n == a@.len() == b@.len(),
            forall|k: int| 0 <= k < i ==> lower_byte(a@[k]) == lower_byte(b@[k]),
        decreases n - i,
    {
        let x = a[i];
        let y = b[i];
        let lx = if 0x41 <= x && x <= 0x5A {
            x + 0x20
        } else {
            x
        };
        let ly = if 0x41 <= y && y <= 0x5A {
            y + 0x20
        } else {
            y
        };
        if lx != ly {
            return false;
        }
        i = i + 1;
    }
    true
}

pub fn bytes_eq(a: &[u8], b: &[u8]) -> (r: bool)
    ensures
        r == (a@ == b@),
{
    if a.len() != b.len() {
        return false;
    }
    let n = a.len();
    let mut i: usize = 0;
    while i < n
        invariant
            i <= n,
            n == a@.len() == b@.len(),
            forall|k: int| 0 <= k < i ==> a@[k] == b@[k],
        decreases n - i,
    {
        if a[i] != b[i] {
            return false;
        }
        i = i + 1;
    }
    proof {
        assert(a@ =~= b@);
    }
    true
}

/// Whether `p` is a prefix of `a`.
pub open spec fn has_prefix(a: Seq<u8>, p: Seq<u8>) -> bool {
    a.len() >= p.len() && a.subrange(0, p.len() as int) == p
}

pub fn starts_with(a: &[u8], p: &[u8]) -> (r: bool)
    ensures
        r == has_prefix(a@, p@),
{
    if a.len() < p.len() {
        return false;
    }
    let n = p.len();
    let mut i: usize = 0;
    while i < n
        invariant
            i <= n,
            n == p@.len(),
            a@.len() >= n,
            forall|k: int| 0 <= k < i ==> a@[k] == p@[k],
        decreases n - i,
    {
        if a[i] != p[i] {
            proof {
                assert(a@.subrange(0, n as int)[i as int] != p@[i as int]);
            }
            return false;
        }
        i = i + 1;
    }
    proof {
        assert(a@.subrange(0, n as int) =~= p@);
    }
    true
}

pub fn subvec(v: &Vec<u8>, from: usize, to: usize) -> (r: Vec<u8>)
    requires
        from <= to <= v@.len(),
    ensures
        r@ == v@.subrange(from as int, to as int),
{
    let mut r: Vec<u8> = Vec::new();
    let mut i: usize = from;
    while i < to
        invariant
            from <= i <= to <= v@.len(),
            r@ == v@.subrange(from as int, i as int),
        decreases to - i,
    {
        r.push(v[i]);
        proof {
            assert(v@.subrange(from as int, i + 1 as int) =~= v@.subrange(from as int, i as int).push(
                v@[i as int],
            ));
        }
        i = i + 1;
    }
    r
}

/// Whether every byte of `s` is an ASCII decimal digit.
pub open spec fn all_digits(s: Seq<u8>) -> bool {
    forall|i: int| 0 <= i < s.len() ==> 0x30 <= #[trigger] s[i] <= 0x39
}

/// The value of a sequence of ASCII decimal digits.
pub open spec fn digits_val(s: Seq<u8>) -> nat
    decreases s.len(),
{
    if s.len() == 0 {
        0
    } else {
        (digits_val(s.drop_last()) * 10 + (s.last() - 0x30)) as nat
    }
}

/// The digits of a decimal reading: the text with one leading plus sign
/// removed.
pub open spec fn digits_part(s: Seq<u8>) -> Seq<u8> {
    if s.len() > 0 && s[0] == 0x2B {
        s.drop_first()
    } else {
        s
    }
}

/// The decimal reading of a byte sequence, as `usize::from_str` accepts it:
/// an optional leading plus sign, then one or more digits, the value within
/// the machine range.
pub open spec fn spec_parse_usize(s: Seq<u8>) -> Option<usize> {
    if digits_part(s).len() == 0 || !all_digits(digits_part(s)) || digits_val(digits_part(s))
        > usize::MAX {
        None
    } else {
        Some(digits_val(digits_part(s)) as usize)
    }
}

proof fn lemma_digits_val_prefix(s: Seq<u8>, k: int)
    requires
        0 <= k <= s.len(),
        all_digits(s),
    ensures
        digits_val(s.take(k)) <= digits_val(s),
    decreases s.len() - k,
{
    if k < s.len() {
        lemma_digits_val_prefix(s, k + 1);
        assert(s.take(k + 1).drop_last() =~= s.take(k));
        assert(s.take(k + 1).last() == s[k]);
        assert(digits_val(s.take(k + 1)) == digits_val(s.take(k)) * 10 + (s[k] - 0x30));
        assert(digits_val(s.take(k)) * 10 >= digits_val(s.take(k)) * 1) by (nonlinear_arith);
    } else {
        assert(s.take(k) =~= s);
    }
}

pub fn parse_usize(s: &[u8]) -> (r: Option<usize>)
    ensures
        r == spec_parse_usize(s@),
{
    let n = s.len();
    let start: usize = if n > 0 && s[0] == 0x2B {
        1
    } else {
        0
    };
    let ghost ds = digits_part(s@);
    proof {
        assert(ds =~= s@.subrange(start as int, n as int));
    }
    if start == n {
        return None;
    }
    let mut val: usize = 0;
    let mut i: usize = start;
    while i < n
        invariant
            start <= i <= n,
            n == s@.len(),
            ds == digits_part(s@),
            ds == s@.subrange(start as int, n as int),
            all_digits(ds.take(i - start)),
            val == digits_val(ds.take(i - start)),
        decreases n - i,
    {
        let c = s[i];
        if c < 0x30 || c > 0x39 {
            proof {
                assert(0 <= i - start < ds.len());
                assert(ds[i - start] == s@[i as int]);
                assert(!all_digits(ds));
            }
            return None;
        }
        let d = (c - 0x30) as usize;
        let ghost pre = ds.take(i - start);
        proof {
            assert(ds.take(i - start + 1).drop_last() =~= pre);
            assert(ds.take(i - start + 1).last() == c);
            assert(all_digits(ds.take(i - start + 1)));
        }
        let v10 = match val.checked_mul(10) {
            Some(v) => v,
            None => {
                proof {
                    assert(digits_val(ds.take(i - start + 1)) > usize::MAX);
                    if all_digits(ds) {
                        lemma_digits_val_prefix(ds, i - start + 1);
                    }
                }
                return None;
            },
        };
        let v = match v10.checked_add(d) {
            Some(v) => v,
            None => {
                proof {
                    assert(digits_val(ds.take(i - start + 1)) > usize::MAX);
                    if all_digits(ds) {
                        lemma_digits_val_prefix(ds, i - start + 1);
                    }
                }
                return None;
            },
        };
        val = v;
        i = i + 1;
    }
    proof {
        assert(ds.take(n - start) =~= ds);
    }
    Some(val)
}

/// The remaining lines joined with line feeds, the body of the request.
pub open spec fn spec_join(ls: Seq<Seq<u8>>, i: int) -> Seq<u8>
    decreases ls.len() - i,
{
    if i < 0 || i >= ls.len() {
        Seq::empty()
    } else if i == ls.len() - 1 {
        ls[i]
    } else {
        ls[i] + seq![lf()] + spec_join(ls, i + 1)
    }
}

fn append_bytes(dst: &mut Vec<u8>, src: &Vec<u8>)
    ensures
        final(dst)@ == old(dst)@ + src@,
{
    let n = src.len();
    let mut i: usize = 0;
    while i < n
        invariant
            i <= n,
            n == src@.len(),
            dst@ == old(dst)@ + src@.take(i as int),
        decreases n - i,
    {
        dst.push(src[i]);
        proof {
            assert(old(dst)@ + src@.take(i + 1) =~= (old(dst)@ + src@.take(i as int)).push(
                src@[i as int],
            ));
        }
        i = i + 1;
    }
    proof {
        assert(src@.take(n as int) =~= src@);
    }
}

pub fn join_lines(ls: &Vec<Vec<u8>>, from: usize) -> (r: Vec<u8>)
    ensures
        r@ == spec_join(views(ls@), from as int),
{
    let n = ls.len();
    if from >= n {
        let r: Vec<u8> = Vec::new();
        proof {
            assert(r@ =~= spec_join(views(ls@), from as int));
        }
        return r;
    }
    let mut i: usize = n;
    let mut acc: Vec<u8> = Vec::new();
    while i > from
        invariant
            from <= i <= n,
            n == ls@.len(),
            i < n ==> acc@ == spec_join(views(ls@), i as int),
            i == n ==> acc@ == Seq::<u8>::empty(),
        decreases i,
    {
        i = i - 1;
        if i == n - 1 {
            let mut line: Vec<u8> = Vec::new();
            append_bytes(&mut line, &ls[i]);
            proof {
                assert(line@ =~= views(ls@)[i as int]);
            }
            acc = line;
        } else {
            let mut joined: Vec<u8> = Vec::new();
            append_bytes(&mut joined, &ls[i]);
            joined.push(0x0A);
            append_bytes(&mut joined, &acc);
            proof {
                assert(joined@ =~= views(ls@)[i as int] + seq![lf()] + spec_join(
                    views(ls@),
                    i + 1,
                ));
            }
            acc = joined;
        }
    }
    acc
}

} // verus!
