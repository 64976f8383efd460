use vstd::prelude::*;

use crate::error::{result_view, BinsError, ErrorModel};

verus! {

pub open spec fn is_digit(c: char) -> bool {
    '0' <= c && c <= '9'
}

pub open spec fn digit_value(c: char) -> nat {
    (c as int - '0' as int) as nat
}

/// The value of a sequence of decimal digits, most significant first.
pub open spec fn digits_value(s: Seq<char>) -> nat
    decreases s.len(),
{
    if s.len() == 0 {
        0
    } else {
        digits_value(s.drop_last()) * 10 + digit_value(s.last())
    }
}

/// `NUMBER := [0-9]+`
pub open spec fn is_number(s: Seq<char>) -> bool {
    s.len() > 0 && forall|i: int| 0 <= i < s.len() ==> is_digit(#[trigger] s[i])
}

/// A range number, or the error that carries the offending text.
pub open spec fn number_spec(s: Seq<char>) -> Result<usize, ErrorModel> {
    if is_number(s) && digits_value(s) <= usize::MAX {
        Ok(digits_value(s) as usize)
    } else {
        Err(ErrorModel::BadRangeNumber(s))
    }
}

/// The pieces of `s` between occurrences of `sep`; there is always at least one.
pub open spec fn split_spec(s: Seq<char>, sep: char) -> Seq<Seq<char>>
    decreases s.len(),
{
    if s.len() == 0 {
        seq![Seq::empty()]
    } else {
        let prev = split_spec(s.drop_last(), sep);
        if s.last() == sep {
            prev.push(Seq::empty())
        } else {
            prev.update(prev.len() - 1, prev.last().push(s.last()))
        }
    }
}

pub proof fn lemma_split_nonempty(s: Seq<char>, sep: char)
    ensures
        split_spec(s, sep).len() >= 1,
    decreases s.len(),
{
    if s.len() > 0 {
        lemma_split_nonempty(s.drop_last(), sep);
    }
}

/// Splits `s` on every occurrence of `sep`.
pub(crate) fn split_on<'a>(s: &'a str, sep: char) -> (r: Vec<&'a str>)
    ensures
        r@.len() == split_spec(s@, sep).len(),
        forall|k: int| 0 <= k < r@.len() ==> (#[trigger] r@[k])@ == split_spec(s@, sep)[k],
{
    let n = s.unicode_len();
    let mut parts: Vec<&'a str> = Vec::new();
    let mut from: usize = 0;
    let mut i: usize = 0;
    while i < n
        invariant
            n == s@.len(),
            from <= i <= n,
            parts@.len() + 1 == split_spec(s@.subrange(0, i as int), sep).len(),
            forall|k: int|
                0 <= k < parts@.len() ==> (#[trigger] parts@[k])@ == split_spec(
                    s@.subrange(0, i as int),
                    sep,
                )[k],
            s@.subrange(from as int, i as int) == split_spec(s@.subrange(0, i as int), sep).last(),
        decreases n - i,
    {
        let c = s.get_char(i);
        proof {
            let pre = s@.subrange(0, i as int);
            let next = s@.subrange(0, i as int + 1);
            assert(next.drop_last() =~= pre);
            assert(next.last() == c);
            lemma_split_nonempty(pre, sep);
        }
        if c == sep {
            let piece = s.substring_char(from, i);
            parts.push(piece);
            from = i + 1;
            proof {
                assert(s@.subrange(from as int, i as int + 1) =~= Seq::<char>::empty());
            }
        } else {
            proof {
                assert(s@.subrange(from as int, i as int + 1) =~= s@.subrange(from as int, i as int).push(c));
            }
        }
        i = i + 1;
    }
    let piece = s.substring_char(from, n);
    parts.push(piece);
    proof {
        assert(s@.subrange(0, n as int) =~= s@);
    }
    parts
}


proof fn lemma_prefix_value_le(s: Seq<char>, j: int)
    requires
        0 <= j <= s.len(),
    ensures
        digits_value(s.subrange(0, j)) <= digits_value(s),
    decreases s.len(),
{
    if j < s.len() {
        assert(s.drop_last().subrange(0, j) =~= s.subrange(0, j));
        lemma_prefix_value_le(s.drop_last(), j);
    } else {
        assert(s.subrange(0, j) =~= s);
    }
}

/// Reads a decimal number made of ASCII digits only; anything else, or a value
/// that does not fit in `usize`, is `BadRangeNumber` with the text read.
fn parse_number(tok: &str) -> (r: Result<usize, BinsError>)
    ensures
        result_view(r) == number_spec(tok@),
{
    let n = tok.unicode_len();
    if n == 0 {
        return Err(BinsError::BadRangeNumber(String::from_str(tok)));
    }
    let mut acc: usize = 0;
    let mut i: usize = 0;
    while i < n
        invariant
            n == tok@.len(),
            0 <= i <= n,
            forall|j: int| 0 <= j < i ==> is_digit(#[trigger] tok@[j]),
            acc as nat == digits_value(tok@.subrange(0, i as int)),
        decreases n - i,
    {
        let c = tok.get_char(i);
        proof {
            assert(tok@.subrange(0, i as int + 1).drop_last() =~= tok@.subrange(0, i as int));
        }
        if !('0' <= c && c <= '9') {
            return Err(BinsError::BadRangeNumber(String::from_str(tok)));
        }
        let d = (c as u32 - '0' as u32) as usize;
        let step = match acc.checked_mul(10) {
            Some(m) => m.checked_add(d),
            None => None,
        };
        match step {
            Some(v) => {
                acc = v;
            },
            None => {
                proof {
                    lemma_prefix_value_le(tok@, i as int + 1);
                }
                return Err(BinsError::BadRangeNumber(String::from_str(tok)));
            },
        }
        i = i + 1;
    }
    proof {
        assert(tok@.subrange(0, n as int) =~= tok@);
    }
    Ok(acc)
}

/// Stepping an index forwards or backwards without overflow.
pub trait StableStep: Sized {
    spec fn spec_forward(&self, count: usize) -> Option<Self>;

    spec fn spec_backward(&self, count: usize) -> Option<Self>;

    fn forward(&self, count: usize) -> (r: Option<Self>)
        ensures
            r == self.spec_forward(count),
    ;

    fn backward(&self, count: usize) -> (r: Option<Self>)
        ensures
            r == self.spec_backward(count),
    ;
}

impl StableStep for usize {
    open spec fn spec_forward(&self, count: usize) -> Option<usize> {
        if *self + count <= usize::MAX {
            Some((*self + count) as usize)
        } else {
            None
        }
    }

    open spec fn spec_backward(&self, count: usize) -> Option<usize> {
        if *self >= count {
            Some((*self - count) as usize)
        } else {
            None
        }
    }

    fn forward(&self, count: usize) -> (r: Option<usize>) {
        self.checked_add(count)
    }

    fn backward(&self, count: usize) -> (r: Option<usize>) {
        self.checked_sub(count)
    }
}

/// The indices from `start` to `last`, both included, walking up when
/// `start <= last` and down otherwise.
pub open spec fn walk(start: usize, last: usize) -> Seq<int> {
    if start <= last {
        Seq::new((last - start + 1) as nat, |k: int| start + k)
    } else {
        Seq::new((start - last + 1) as nat, |k: int| start - k)
    }
}

/// A range of file indices with a direction. Both ends are part of the range,
/// so `2-0` holds 2, 1 and 0, and no end needs a value outside `usize`.
#[derive(Clone, Copy, Debug, PartialEq, Eq, Structural)]
pub struct BidirectionalRange {
    pub start: usize,
    pub last: usize,
}

impl View for BidirectionalRange {
    type V = Seq<int>;

    /// The indices in the order the range walks them.
    open spec fn view(&self) -> Seq<int> {
        walk(self.start, self.last)
    }
}

impl BidirectionalRange {
    pub open spec fn spec_contains(&self, i: int) -> bool {
        if self.start <= self.last {
            self.start <= i <= self.last
        } else {
            self.last <= i <= self.start
        }
    }

    pub fn new(start: usize, last: usize) -> (r: BidirectionalRange)
        ensures
            r.start == start,
            r.last == last,
    {
        BidirectionalRange { start, last }
    }

    /// Parses `NUMBER` or `NUMBER '-' NUMBER`.
    pub fn parse_usize(string: &str) -> (r: Result<BidirectionalRange, BinsError>)
        ensures
            bounds_view(r) == range_spec(string@),
    {
        let split = split_on(string, '-');
        if split.len() == 1 {
            let number = parse_number(split[0])?;
            Ok(BidirectionalRange::new(number, number))
        } else if split.len() == 2 {
            let start = parse_number(split[0])?;
            let last = parse_number(split[1])?;
            Ok(BidirectionalRange::new(start, last))
        } else {
            Err(BinsError::BadRange)
        }
    }

    pub fn contains(&self, item: usize) -> (r: bool)
        ensures
            r == self.spec_contains(item as int),
            r == self@.contains(item as int),
    {
        proof {
            lemma_contains_enumerated(*self, item as int);
        }
        if self.start <= self.last {
            item >= self.start && item <= self.last
        } else {
            item <= self.start && item >= self.last
        }
    }

    /// The `k`-th index the range walks, counting from 0, if the walk is
    /// that long. The range itself is never consumed, so a walk can restart.
    pub fn nth(&self, k: usize) -> (r: Option<usize>)
        ensures
            k < self@.len() ==> r == Some(self@[k as int] as usize),
            k >= self@.len() ==> r is None,
    {
        if self.start <= self.last {
            if k <= self.last - self.start {
                Some(self.start + k)
            } else {
                None
            }
        } else {
            if k <= self.start - self.last {
                Some(self.start - k)
            } else {
                None
            }
        }
    }

    /// Every index of the range, in the order the range walks them.
    pub fn indices(&self) -> (r: Vec<usize>)
        ensures
            r@.map_values(|x: usize| x as int) == self@,
    {
        let mut out: Vec<usize> = Vec::new();
        let mut cur: usize = self.start;
        loop
            invariant_except_break
                out@.len() == if self.start <= self.last {
                    cur - self.start
                } else {
                    self.start - cur
                },
                if self.start <= self.last {
                    self.start <= cur <= self.last
                } else {
                    self.last <= cur <= self.start
                },
            invariant
                forall|k: int|
                    0 <= k < out@.len() ==> #[trigger] (out@[k] as int) == self@[k],
            ensures
                out@.len() == self@.len(),
            decreases (if self.start <= self.last {
                self.last - cur
            } else {
                cur - self.last
            }),
        {
            out.push(cur);
            if cur == self.last {
                break;
            }
            if self.start <= self.last {
                cur = cur.forward(1).unwrap();
            } else {
                cur = cur.backward(1).unwrap();
            }
        }
        assert(out@.map_values(|x: usize| x as int) =~= self@);
        out
    }
}

/// The two ends of a parsed range, or the error.
pub open spec fn bounds_view(r: Result<BidirectionalRange, BinsError>) -> Result<(usize, usize), ErrorModel> {
    match r {
        Ok(x) => Ok((x.start, x.last)),
        Err(e) => Err(e@),
    }
}

/// A single range as text: one number, or two joined by `-`.
pub open spec fn range_spec(s: Seq<char>) -> Result<(usize, usize), ErrorModel> {
    let t = split_spec(s, '-');
    if t.len() == 1 {
        match number_spec(t[0]) {
            Ok(n) => Ok((n, n)),
            Err(e) => Err(e),
        }
    } else if t.len() == 2 {
        match number_spec(t[0]) {
            Err(e) => Err(e),
            Ok(a) => match number_spec(t[1]) {
                Err(e) => Err(e),
                Ok(b) => Ok((a, b)),
            },
        }
    } else {
        Err(ErrorModel::BadRange)
    }
}

/// Membership of a range is membership of the sequence it walks.
pub proof fn lemma_contains_enumerated(r: BidirectionalRange, i: int)
    ensures
        r.spec_contains(i) <==> r@.contains(i),
{
    if r.spec_contains(i) {
        let k = if r.start <= r.last {
            i - r.start
        } else {
            r.start - i
        };
        assert(r@[k] == i);
    }
}

/// An index belongs to a set of ranges when some range holds it.
pub open spec fn ranges_contain(rs: Seq<BidirectionalRange>, i: int) -> bool {
    exists|k: int| 0 <= k < rs.len() && #[trigger] rs[k].spec_contains(i)
}

/// All indices of all ranges, range after range, each in its own walking order.
pub open spec fn enumerate_all(rs: Seq<BidirectionalRange>) -> Seq<int>
    decreases rs.len(),
{
    if rs.len() == 0 {
        Seq::empty()
    } else {
        enumerate_all(rs.drop_last()) + rs.last()@
    }
}

/// Testing membership in a set of ranges gives the same answer as listing
/// every index of every range and looking for the index there.
pub proof fn lemma_membership_matches_enumeration(rs: Seq<BidirectionalRange>, i: int)
    ensures
        ranges_contain(rs, i) <==> enumerate_all(rs).contains(i),
    decreases rs.len(),
{
    if rs.len() > 0 {
        let init = rs.drop_last();
        let a = enumerate_all(init);
        let b = rs.last()@;
        lemma_membership_matches_enumeration(init, i);
        lemma_contains_enumerated(rs.last(), i);
        if ranges_contain(rs, i) {
            let k = choose|k: int| 0 <= k < rs.len() && #[trigger] rs[k].spec_contains(i);
            if k < rs.len() - 1 {
                assert(init[k] == rs[k]);
                let j = choose|j: int| 0 <= j < a.len() && a[j] == i;
                assert((a + b)[j] == i);
            } else {
                let j = choose|j: int| 0 <= j < b.len() && b[j] == i;
                assert((a + b)[a.len() + j] == i);
            }
        }
        if enumerate_all(rs).contains(i) {
            let j = choose|j: int| 0 <= j < (a + b).len() && (a + b)[j] == i;
            if j < a.len() {
                assert(a[j] == i);
                let k = choose|k: int| 0 <= k < init.len() && #[trigger] init[k].spec_contains(i);
                assert(rs[k] == init[k]);
            } else {
                assert(b[j - a.len()] == i);
                assert(rs[rs.len() - 1] == rs.last());
            }
        }
    }
}

/// Membership in any of several ranges.
pub trait AnyContains {
    spec fn spec_any_contains(&self, i: int) -> bool;

    fn any_contains(&self, i: usize) -> (r: bool)
        ensures
            r == self.spec_any_contains(i as int),
    ;
}

impl AnyContains for Vec<BidirectionalRange> {
    open spec fn spec_any_contains(&self, i: int) -> bool {
        ranges_contain(self@, i)
    }

    fn any_contains(&self, i: usize) -> (r: bool) {
        let mut k: usize = 0;
        while k < self.len()
            invariant
                k <= self@.len(),
                forall|j: int| 0 <= j < k ==> !(#[trigger] self@[j]).spec_contains(i as int),
            decreases self@.len() - k,
        {
            if self[k].contains(i) {
                return true;
            }
            k = k + 1;
        }
        false
    }
}

/// The ranges of a comma-separated list, or the error of the first bad one.
pub open spec fn ranges_spec(parts: Seq<Seq<char>>) -> Result<Seq<(usize, usize)>, ErrorModel>
    decreases parts.len(),
{
    if parts.len() == 0 {
        Ok(Seq::empty())
    } else {
        match ranges_spec(parts.drop_last()) {
            Err(e) => Err(e),
            Ok(v) => match range_spec(parts.last()) {
                Err(e) => Err(e),
                Ok(p) => Ok(v.push(p)),
            },
        }
    }
}

/// `spec := range (',' range)*`
pub open spec fn range_set_spec(s: Seq<char>) -> Result<Seq<(usize, usize)>, ErrorModel> {
    ranges_spec(split_spec(s, ','))
}

pub open spec fn range_set_view(r: Result<Vec<BidirectionalRange>, BinsError>) -> Result<
    Seq<(usize, usize)>,
    ErrorModel,
> {
    match r {
        Ok(v) => Ok(v@.map_values(|x: BidirectionalRange| (x.start, x.last))),
        Err(e) => Err(e@),
    }
}

proof fn lemma_ranges_prefix_err(parts: Seq<Seq<char>>, j: int)
    requires
        0 <= j <= parts.len(),
        ranges_spec(parts.subrange(0, j)) is Err,
    ensures
        ranges_spec(parts) == ranges_spec(parts.subrange(0, j)),
    decreases parts.len(),
{
    if j < parts.len() {
        assert(parts.drop_last().subrange(0, j) =~= parts.subrange(0, j));
        lemma_ranges_prefix_err(parts.drop_last(), j);
    } else {
        assert(parts.subrange(0, j) =~= parts);
    }
}

/// Parses a comma-separated list of ranges such as `2-0,3`.
pub fn parse_range_set(string: &str) -> (r: Result<Vec<BidirectionalRange>, BinsError>)
    ensures
        range_set_view(r) == range_set_spec(string@),
{
    let parts = split_on(string, ',');
    let ghost ps = split_spec(string@, ',');
    let mut out: Vec<BidirectionalRange> = Vec::new();
    let mut i: usize = 0;
    assert(ps.subrange(0, 0) =~= Seq::<Seq<char>>::empty());
    assert(out@.map_values(|x: BidirectionalRange| (x.start, x.last)) =~= Seq::<(usize, usize)>::empty());
    while i < parts.len()
        invariant
            ps == split_spec(string@, ','),
            parts@.len() == ps.len(),
            forall|k: int| 0 <= k < parts@.len() ==> (#[trigger] parts@[k])@ == ps[k],
            i <= parts@.len(),
            ranges_spec(ps.subrange(0, i as int)) == Ok::<Seq<(usize, usize)>, ErrorModel>(
                out@.map_values(|x: BidirectionalRange| (x.start, x.last)),
            ),
        decreases parts@.len() - i,
    {
        let parsed = BidirectionalRange::parse_usize(parts[i]);
        proof {
            assert(ps.subrange(0, i as int + 1).drop_last() =~= ps.subrange(0, i as int));
            assert(ps.subrange(0, i as int + 1).last() == parts@[i as int]@);
        }
        match parsed {
            Ok(x) => {
                out.push(x);
                proof {
                    assert(out@.map_values(|x: BidirectionalRange| (x.start, x.last)) =~= ranges_spec(
                        ps.subrange(0, i as int),
                    )->Ok_0.push((x.start, x.last)));
                }
            },
            Err(e) => {
                proof {
                    assert(range_spec(ps[i as int]) == Err::<(usize, usize), ErrorModel>(e@));
                    assert(ranges_spec(ps.subrange(0, i as int + 1)) == Err::<Seq<(usize, usize)>, ErrorModel>(e@));
                    lemma_ranges_prefix_err(ps, i as int + 1);
                }
                return Err(e);
            },
        }
        i = i + 1;
    }
    proof {
        assert(ps.subrange(0, i as int) =~= ps);
    }
    Ok(out)
}

proof fn lemma_split_append_plain(p: Seq<char>, t: Seq<char>, sep: char)
    requires
        forall|i: int| 0 <= i < t.len() ==> t[i] != sep,
    ensures
        split_spec(p + t, sep) == split_spec(p, sep).update(
            split_spec(p, sep).len() - 1,
            split_spec(p, sep).last() + t,
        ),
    decreases t.len(),
{
    lemma_split_nonempty(p, sep);
    if t.len() == 0 {
        assert(p + t =~= p);
        assert(split_spec(p, sep).last() + t =~= split_spec(p, sep).last());
        assert(split_spec(p, sep).update(split_spec(p, sep).len() - 1, split_spec(p, sep).last())
            =~= split_spec(p, sep));
    } else {
        let t0 = t.drop_last();
        lemma_split_append_plain(p, t0, sep);
        assert((p + t).drop_last() =~= p + t0);
        assert((p + t).last() == t.last());
        let sp = split_spec(p, sep);
        let prev = split_spec(p + t0, sep);
        assert(prev.len() == sp.len());
        assert(prev.last() == sp.last() + t0);
        assert(t.last() != sep);
        assert(prev.last().push(t.last()) =~= sp.last() + t);
        assert(prev.update(prev.len() - 1, sp.last() + t) =~= sp.update(sp.len() - 1, sp.last() + t));
        assert(split_spec(p + t, sep) =~= split_spec(p, sep).update(
            split_spec(p, sep).len() - 1,
            split_spec(p, sep).last() + t,
        ));
    }
}

proof fn lemma_number_has_no_dash(s: Seq<char>)
    requires
        is_number(s),
    ensures
        forall|i: int| 0 <= i < s.len() ==> s[i] != '-',
{
    assert forall|i: int| 0 <= i < s.len() implies s[i] != '-' by {
        assert(is_digit(s[i]));
    }
}

proof fn lemma_split_pair(a: Seq<char>, b: Seq<char>)
    requires
        is_number(a),
        is_number(b),
    ensures
        split_spec(a + seq!['-'] + b, '-') == seq![a, b],
{
    lemma_number_has_no_dash(a);
    lemma_number_has_no_dash(b);
    let e = Seq::<char>::empty();
    lemma_split_append_plain(e, a, '-');
    assert(e + a =~= a);
    assert(split_spec(e, '-') == seq![e]);
    assert(seq![e].update(0, e + a) =~= seq![a]);
    let am = a + seq!['-'];
    assert(am.drop_last() =~= a);
    assert(split_spec(am, '-') =~= seq![a, e]);
    lemma_split_append_plain(am, b, '-');
    assert(seq![a, e].update(1, e + b) =~= seq![a, b]);
}

/// A range written as one number parses to the range that holds that number alone.
pub proof fn lemma_parse_single_number(s: Seq<char>)
    requires
        is_number(s),
        digits_value(s) <= usize::MAX,
    ensures
        range_spec(s) == Ok::<(usize, usize), ErrorModel>(
            (digits_value(s) as usize, digits_value(s) as usize),
        ),
        walk(digits_value(s) as usize, digits_value(s) as usize) == seq![digits_value(s) as int],
{
    lemma_number_has_no_dash(s);
    let e = Seq::<char>::empty();
    lemma_split_append_plain(e, s, '-');
    assert(e + s =~= s);
    assert(split_spec(e, '-') == seq![e]);
    assert(seq![e].update(0, e + s) =~= seq![s]);
    let n = digits_value(s) as usize;
    assert(walk(n, n) =~= seq![n as int]);
}

/// `a-b` with `a < b` parses to the ascending walk from `a` to `b`, both
/// included: `b - a + 1` indices.
pub proof fn lemma_parse_ascending(a: Seq<char>, b: Seq<char>)
    requires
        is_number(a),
        is_number(b),
        digits_value(a) < digits_value(b) <= usize::MAX,
    ensures
        range_spec(a + seq!['-'] + b) == Ok::<(usize, usize), ErrorModel>(
            (digits_value(a) as usize, digits_value(b) as usize),
        ),
        walk(digits_value(a) as usize, digits_value(b) as usize) == Seq::new(
            (digits_value(b) - digits_value(a) + 1) as nat,
            |k: int| digits_value(a) + k,
        ),
{
    lemma_split_pair(a, b);
    let (x, y) = (digits_value(a) as usize, digits_value(b) as usize);
    assert(walk(x, y) =~= Seq::new((y - x + 1) as nat, |k: int| x + k));
}

/// `a-b` with `a > b` parses to the descending walk from `a` to `b`, both
/// included: `a - b + 1` indices.
pub proof fn lemma_parse_descending(a: Seq<char>, b: Seq<char>)
    requires
        is_number(a),
        is_number(b),
        digits_value(b) < digits_value(a) <= usize::MAX,
    ensures
        range_spec(a + seq!['-'] + b) == Ok::<(usize, usize), ErrorModel>(
            (digits_value(a) as usize, digits_value(b) as usize),
        ),
        walk(digits_value(a) as usize, digits_value(b) as usize) == Seq::new(
            (digits_value(a) - digits_value(b) + 1) as nat,
            |k: int| digits_value(a) - k,
        ),
{
    lemma_split_pair(a, b);
    let (x, y) = (digits_value(a) as usize, digits_value(b) as usize);
    assert(walk(x, y) =~= Seq::new((x - y + 1) as nat, |k: int| x - k));
}

} // verus!
