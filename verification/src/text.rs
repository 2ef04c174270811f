//! Byte-sequence helpers shared by the resolver, the port reclaimer
//! and the supervisor: prefix/suffix and substring tests, ASCII
//! trimming, whitespace tokenization, decimal formatting of port
//! numbers, and the newline splitter behind the log relay.

use vstd::prelude::*;

verus! {

/// `p` occurs at the very start of `s`.
pub open spec fn is_prefix_of(p: Seq<u8>, s: Seq<u8>) -> bool {
    p.len() <= s.len() && s.subrange(0, p.len() as int) == p
}

/// `p` occurs at the very end of `s`.
pub open spec fn is_suffix_of(p: Seq<u8>, s: Seq<u8>) -> bool {
    p.len() <= s.len() && s.subrange(s.len() - p.len(), s.len() as int) == p
}

pub fn starts_with(s: &Vec<u8>, p: &Vec<u8>) -> (r: bool)
    ensures
        r == is_prefix_of(p@, s@),
{
    if p.len() > s.len() {
        return false;
    }
    let mut i: usize = 0;
    while i < p.len()
        invariant
            i <= p.len() <= s.len(),
            forall|j: int| 0 <= j < i ==> s@[j] == p@[j],
        decreases p.len() - i,
    {
        if s[i] != p[i] {
            assert(s@.subrange(0, p@.len() as int)[i as int] != p@[i as int]);
            return false;
        }
        i += 1;
    }
    assert(s@.subrange(0, p@.len() as int) =~= p@);
    true
}

pub fn ends_with(s: &Vec<u8>, p: &Vec<u8>) -> (r: bool)
    ensures
        r == is_suffix_of(p@, s@),
{
    if p.len() > s.len() {
        return false;
    }
    let d: usize = s.len() - p.len();
    let mut i: usize = 0;
    while i < p.len()
        invariant
            i <= p.len() <= s.len(),
            d == s@.len() - p@.len(),
            forall|j: int| 0 <= j < i ==> s@[d + j] == p@[j],
        decreases p.len() - i,
    {
        if s[d + i] != p[i] {
            assert(s@.subrange(s@.len() - p@.len(), s@.len() as int)[i as int] != p@[
                i as int
            ]);
            return false;
        }
        i += 1;
    }
    assert(s@.subrange(s@.len() - p@.len(), s@.len() as int) =~= p@);
    true
}

pub fn clone_vec(v: &Vec<u8>) -> (r: Vec<u8>)
    ensures
        r@ == v@,
{
    let mut r: Vec<u8> = Vec::new();
    let mut i: usize = 0;
    while i < v.len()
        invariant
            0 <= i <= v.len(),
            r@ =~= v@.subrange(0, i as int),
        decreases v.len() - i,
    {
        r.push(v[i]);
        i += 1;
    }
    proof {
        assert(r@ =~= v@);
    }
    r
}

pub fn extend_bytes(dst: &mut Vec<u8>, src: &Vec<u8>)
    ensures
        final(dst)@ == old(dst)@ + src@,
{
    let mut i: usize = 0;
    while i < src.len()
        invariant
            0 <= i <= src.len(),
            dst@ =~= old(dst)@ + src@.subrange(0, i as int),
        decreases src.len() - i,
    {
        dst.push(src[i]);
        i += 1;
    }
    proof {
        assert(dst@ =~= old(dst)@ + src@);
    }
}

pub fn bytes_eq(a: &Vec<u8>, b: &Vec<u8>) -> (r: bool)
    ensures
        r == (a@ == b@),
{
    if a.len() != b.len() {
        return false;
    }
    let mut i: usize = 0;
    while i < a.len()
        invariant
            0 <= i <= a.len(),
            a@.len() == b@.len(),
            forall|j: int| 0 <= j < i ==> a@[j] == b@[j],
        decreases a.len() - i,
    {
        if a[i] != b[i] {
            return false;
        }
        i += 1;
    }
    assert(a@ =~= b@);
    true
}

/// ASCII whitespace, as the trimming of tool output understands it.
pub open spec fn is_space(b: u8) -> bool {
    b == 32 || b == 9 || b == 10 || b == 13
}

/// Index of the first non-space byte at or after `i`.
pub open spec fn trim_start_idx(s: Seq<u8>, i: int) -> int
    recommends
        0 <= i <= s.len(),
    decreases s.len() - i,
{
    if i < s.len() && is_space(s[i]) {
        trim_start_idx(s, i + 1)
    } else {
        i
    }
}

/// Index one past the last non-space byte at or before `i - 1`.
pub open spec fn trim_end_idx(s: Seq<u8>, i: int) -> int
    recommends
        0 <= i <= s.len(),
    decreases i,
{
    if i > 0 && is_space(s[i - 1]) {
        trim_end_idx(s, i - 1)
    } else {
        i
    }
}

/// `s` with leading and trailing ASCII whitespace removed.
pub open spec fn trimmed(s: Seq<u8>) -> Seq<u8> {
    let a = trim_start_idx(s, 0);
    let b = trim_end_idx(s, s.len() as int);
    if a <= b {
        s.subrange(a, b)
    } else {
        Seq::empty()
    }
}

proof fn lemma_trim_end_bounds(s: Seq<u8>, i: int)
    requires
        0 <= i <= s.len(),
    ensures
        0 <= trim_end_idx(s, i) <= i,
    decreases i,
{
    if i > 0 && is_space(s[i - 1]) {
        lemma_trim_end_bounds(s, i - 1);
    }
}

pub fn trim_ascii(s: &Vec<u8>) -> (r: Vec<u8>)
    ensures
        r@ == trimmed(s@),
{
    let mut a: usize = 0;
    while a < s.len() && is_space_byte(s[a])
        invariant
            0 <= a <= s.len(),
            trim_start_idx(s@, 0) == trim_start_idx(s@, a as int),
        decreases s.len() - a,
    {
        a += 1;
    }
    assert(trim_start_idx(s@, a as int) == a);
    let mut b: usize = s.len();
    while b > a && is_space_byte(s[b - 1])
        invariant
            a <= b <= s.len(),
            trim_start_idx(s@, 0) == a,
            trim_end_idx(s@, s@.len() as int) == trim_end_idx(s@, b as int),
        decreases b,
    {
        b -= 1;
    }
    proof {
        lemma_trim_end_bounds(s@, b as int);
    }
    assert(trim_end_idx(s@, b as int) == b || (b == a && trim_end_idx(s@, b as int)
        <= a));
    let mut r: Vec<u8> = Vec::new();
    let mut i: usize = a;
    while i < b
        invariant
            a <= i <= b <= s.len(),
            r@.len() == i - a,
            forall|j: int| 0 <= j < r@.len() ==> r@[j] == s@[a + j],
        decreases b - i,
    {
        r.push(s[i]);
        i += 1;
    }
    proof {
        let ta = trim_start_idx(s@, 0);
        let tb = trim_end_idx(s@, s@.len() as int);
        if ta <= tb {
            assert(r@ =~= s@.subrange(ta, tb));
        } else {
            assert(r@ =~= Seq::<u8>::empty());
        }
    }
    r
}

fn is_space_byte(b: u8) -> (r: bool)
    ensures
        r == is_space(b),
{
    b == 32 || b == 9 || b == 10 || b == 13
}

/// Decimal digits of `n`, most significant first.
pub open spec fn dec_digits(n: nat) -> Seq<u8>
    decreases n,
{
    if n < 10 {
        seq![(n + 48) as u8]
    } else {
        dec_digits(n / 10).push((n % 10 + 48) as u8)
    }
}

pub fn format_u16(n: u16) -> (r: Vec<u8>)
    ensures
        r@ == dec_digits(n as nat),
    decreases n,
{
    if n < 10 {
        let mut v: Vec<u8> = Vec::new();
        v.push((n as u8) + 48);
        proof {
            assert(v@ =~= dec_digits(n as nat));
        }
        v
    } else {
        let mut v = format_u16(n / 10);
        v.push(((n % 10) as u8) + 48);
        proof {
            assert(v@ =~= dec_digits(n as nat));
        }
        v
    }
}

/// `s` split at newlines: the complete lines (without their
/// terminators), and the pending bytes after the last newline.
pub open spec fn split_lines(s: Seq<u8>) -> (Seq<Seq<u8>>, Seq<u8>)
    decreases s.len(),
{
    if s.len() == 0 {
        (Seq::empty(), Seq::empty())
    } else {
        let prev = split_lines(s.drop_last());
        if s.last() == 10 {
            (prev.0.push(prev.1), Seq::empty())
        } else {
            (prev.0, prev.1.push(s.last()))
        }
    }
}

/// `l` contains no newline.
pub open spec fn line_clean(l: Seq<u8>) -> bool {
    forall|i: int| 0 <= i < l.len() ==> #[trigger] l[i] != 10
}

/// The incremental splitter behind one stream's log relay: chunks
/// go in as they are read from the child's pipe, complete lines come
/// out in order, and bytes after the last newline wait for the next
/// chunk.
pub struct LineSplitter {
    buf: Vec<u8>,
}

impl LineSplitter {
    /// Bytes seen since the last newline.
    pub closed spec fn pending(&self) -> Seq<u8> {
        self.buf@
    }

    /// The pending bytes never contain a newline.
    pub closed spec fn wf(&self) -> bool {
        line_clean(self.buf@)
    }

    pub fn new() -> (s: Self)
        ensures
            s.pending() == Seq::<u8>::empty(),
            s.wf(),
    {
        LineSplitter { buf: Vec::new() }
    }

    /// Feed one chunk of the stream; the lines completed by it come
    /// back in order, exactly as `split_lines` of the pending bytes
    /// followed by the chunk.
    pub fn feed(&mut self, chunk: &Vec<u8>) -> (lines: Vec<Vec<u8>>)
        requires
            old(self).wf(),
        ensures
            final(self).wf(),
            lines@.map_values(|l: Vec<u8>| l@) == split_lines(
                old(self).pending() + chunk@,
            ).0,
            final(self).pending() == split_lines(old(self).pending() + chunk@).1,
    {
        let mut lines: Vec<Vec<u8>> = Vec::new();
        let mut i: usize = 0;
        proof {
            assert(old(self).pending() + chunk@.subrange(0, 0) =~= old(self).pending());
            lemma_split_clean(old(self).pending());
        }
        while i < chunk.len()
            invariant
                0 <= i <= chunk@.len(),
                lines@.map_values(|l: Vec<u8>| l@) == split_lines(
                    old(self).pending() + chunk@.subrange(0, i as int),
                ).0,
                self.buf@ == split_lines(old(self).pending() + chunk@.subrange(
                    0, i as int)).1,
                line_clean(self.buf@),
            decreases chunk@.len() - i,
        {
            let ghost prefix = old(self).pending() + chunk@.subrange(0, i as int);
            proof {
                let t = old(self).pending() + chunk@.subrange(0, i as int + 1);
                assert(t.drop_last() =~= prefix);
                assert(t.last() == chunk@[i as int]);
            }
            let c = chunk[i];
            let ghost old_lines = lines@;
            let ghost old_buf = self.buf@;
            if c == 10 {
                let mut line: Vec<u8> = Vec::new();
                core::mem::swap(&mut line, &mut self.buf);
                lines.push(line);
                proof {
                    assert(lines@.map_values(|l: Vec<u8>| l@) =~= old_lines.map_values(
                        |l: Vec<u8>| l@,
                    ).push(old_buf));
                }
            } else {
                self.buf.push(c);
            }
            i += 1;
        }
        proof {
            assert(chunk@.subrange(0, chunk@.len() as int) =~= chunk@);
        }
        lines
    }

    /// Hand out the bytes still waiting for a newline.
    pub fn take_pending(self) -> (r: Vec<u8>)
        ensures
            r@ == self.pending(),
    {
        self.buf
    }
}

/// Whitespace tokenization of `s`: the completed tokens, and the
/// token still open at the end.
pub open spec fn tokens_acc(s: Seq<u8>) -> (Seq<Seq<u8>>, Seq<u8>)
    decreases s.len(),
{
    if s.len() == 0 {
        (Seq::empty(), Seq::empty())
    } else {
        let prev = tokens_acc(s.drop_last());
        if is_space(s.last()) {
            if prev.1.len() == 0 {
                prev
            } else {
                (prev.0.push(prev.1), Seq::empty())
            }
        } else {
            (prev.0, prev.1.push(s.last()))
        }
    }
}

/// The whitespace-separated fields of `s`, in order.
pub open spec fn spec_fields(s: Seq<u8>) -> Seq<Seq<u8>> {
    let t = tokens_acc(s);
    if t.1.len() == 0 {
        t.0
    } else {
        t.0.push(t.1)
    }
}

/// Split `s` into its whitespace-separated fields.
pub fn split_fields(s: &Vec<u8>) -> (r: Vec<Vec<u8>>)
    ensures
        r@.map_values(|t: Vec<u8>| t@) == spec_fields(s@),
{
    let mut done: Vec<Vec<u8>> = Vec::new();
    let mut cur: Vec<u8> = Vec::new();
    let mut i: usize = 0;
    proof {
        assert(s@.subrange(0, 0) =~= Seq::<u8>::empty());
    }
    while i < s.len()
        invariant
            0 <= i <= s@.len(),
            done@.map_values(|t: Vec<u8>| t@) == tokens_acc(s@.subrange(0, i as int)).0,
            cur@ == tokens_acc(s@.subrange(0, i as int)).1,
        decreases s@.len() - i,
    {
        proof {
            let t = s@.subrange(0, i as int + 1);
            assert(t.drop_last() =~= s@.subrange(0, i as int));
            assert(t.last() == s@[i as int]);
        }
        let c = s[i];
        let ghost old_done = done@;
        let ghost old_cur = cur@;
        if is_space_byte(c) {
            if cur.len() > 0 {
                let mut tok: Vec<u8> = Vec::new();
                core::mem::swap(&mut tok, &mut cur);
                done.push(tok);
                proof {
                    assert(done@.map_values(|t: Vec<u8>| t@) =~= old_done.map_values(
                        |t: Vec<u8>| t@,
                    ).push(old_cur));
                }
            }
        } else {
            cur.push(c);
        }
        i += 1;
    }
    proof {
        assert(s@.subrange(0, s@.len() as int) =~= s@);
    }
    if cur.len() > 0 {
        let ghost old_done = done@;
        let ghost old_cur = cur@;
        done.push(cur);
        proof {
            assert(done@.map_values(|t: Vec<u8>| t@) =~= old_done.map_values(
                |t: Vec<u8>| t@,
            ).push(old_cur));
        }
    }
    done
}

/// `sub` occurs in `s` starting at `k`.
pub open spec fn matches_at(s: Seq<u8>, sub: Seq<u8>, k: int) -> bool {
    0 <= k && k + sub.len() <= s.len() && s.subrange(k, k + sub.len()) == sub
}

/// `sub` occurs somewhere in `s`.
pub open spec fn contains_seq(s: Seq<u8>, sub: Seq<u8>) -> bool {
    exists|k: int| matches_at(s, sub, k)
}

fn match_at(s: &Vec<u8>, sub: &Vec<u8>, k: usize) -> (r: bool)
    requires
        k + sub@.len() <= s@.len(),
    ensures
        r == matches_at(s@, sub@, k as int),
{
    let blen: usize = s.len();
    let mut i: usize = 0;
    while i < sub.len()
        invariant
            blen == s@.len(),
            0 <= i <= sub@.len(),
            k + sub@.len() <= s@.len(),
            forall|j: int| 0 <= j < i ==> s@[k + j] == sub@[j],
        decreases sub@.len() - i,
    {
        if s[k + i] != sub[i] {
            assert(s@.subrange(k as int, k as int + sub@.len() as int)[i as int] != sub@[
                i as int
            ]);
            return false;
        }
        i += 1;
    }
    assert(s@.subrange(k as int, k as int + sub@.len() as int) =~= sub@);
    true
}

/// Does `sub` occur anywhere in `s`?
pub fn contains_bytes(s: &Vec<u8>, sub: &Vec<u8>) -> (r: bool)
    ensures
        r == contains_seq(s@, sub@),
{
    if sub.len() == 0 {
        proof {
            assert(s@.subrange(0, 0) =~= sub@);
            assert(matches_at(s@, sub@, 0));
        }
        return true;
    }
    if sub.len() > s.len() {
        proof {
            if contains_seq(s@, sub@) {
                let k = choose|k: int| matches_at(s@, sub@, k);
                assert(false);
            }
        }
        return false;
    }
    let slen: usize = s.len();
    let n: usize = s.len() - sub.len();
    let mut k: usize = 0;
    while k <= n
        invariant
            slen == s@.len(),
            n == s@.len() - sub@.len(),
            sub@.len() >= 1,
            n < slen,
            0 <= k <= n + 1,
            forall|j: int| 0 <= j < k ==> !matches_at(s@, sub@, j),
        decreases n + 1 - k,
    {
        if match_at(s, sub, k) {
            return true;
        }
        k += 1;
    }
    proof {
        if contains_seq(s@, sub@) {
            let j = choose|j: int| matches_at(s@, sub@, j);
            assert(0 <= j <= n);
            assert(false);
        }
    }
    false
}

/// A sequence with no newline splits into no lines, all pending.
pub proof fn lemma_split_clean(s: Seq<u8>)
    requires
        line_clean(s),
    ensures
        split_lines(s).0 == Seq::<Seq<u8>>::empty(),
        split_lines(s).1 == s,
    decreases s.len(),
{
    if s.len() == 0 {
        assert(split_lines(s).1 =~= s);
    } else {
        assert(line_clean(s.drop_last()));
        lemma_split_clean(s.drop_last());
        assert(s.drop_last().push(s.last()) =~= s);
    }
}

/// Appending newline-free bytes completes no line; they all wait.
pub proof fn lemma_split_append_clean(s: Seq<u8>, line: Seq<u8>)
    requires
        line_clean(line),
    ensures
        split_lines(s + line).0 == split_lines(s).0,
        split_lines(s + line).1 == split_lines(s).1 + line,
    decreases line.len(),
{
    if line.len() == 0 {
        assert(s + line =~= s);
        assert(split_lines(s).1 + line =~= split_lines(s).1);
    } else {
        assert(line_clean(line.drop_last()));
        lemma_split_append_clean(s, line.drop_last());
        let t = s + line;
        assert(t.drop_last() =~= s + line.drop_last());
        assert(t.last() == line.last());
        assert((split_lines(s).1 + line.drop_last()).push(line.last()) =~= split_lines(
            s,
        ).1 + line);
    }
}

} // verus!
