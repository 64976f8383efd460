use vstd::prelude::*;

use crate::error::{BinFeature, BinsError, ErrorModel};
use crate::paste::Info;
use crate::range::{ranges_contain, AnyContains, BidirectionalRange};

verus! {

/// The indices below `n` that the ranges hold, in ascending order.
pub open spec fn selected_upto(n: nat, rs: Seq<BidirectionalRange>) -> Seq<int>
    decreases n,
{
    if n == 0 {
        Seq::empty()
    } else {
        let prev = selected_upto((n - 1) as nat, rs);
        if ranges_contain(rs, n - 1) {
            prev.push(n - 1)
        } else {
            prev
        }
    }
}

/// The least index at or beyond `n` that range `r` holds, if any.
pub open spec fn range_beyond(n: nat, r: BidirectionalRange) -> Option<int> {
    let low = if r.start <= r.last { r.start as int } else { r.last as int };
    let high = if r.start <= r.last { r.last as int } else { r.start as int };
    if high >= n {
        Some(if low >= n { low } else { n as int })
    } else {
        None
    }
}

/// The least index at or beyond `n` that any of the ranges holds, if any.
pub open spec fn first_beyond(n: nat, rs: Seq<BidirectionalRange>) -> Option<int>
    decreases rs.len(),
{
    if rs.len() == 0 {
        None
    } else {
        match (first_beyond(n, rs.drop_last()), range_beyond(n, rs.last())) {
            (None, c) => c,
            (Some(a), None) => Some(a),
            (Some(a), Some(b)) => Some(if a <= b { a } else { b }),
        }
    }
}

/// Which files of a paste of `n` files are shown: every file with `all`; else
/// the files the ranges hold, in ascending order, unless a range names an
/// index past the last file; else the first file.
pub open spec fn selection_spec(n: nat, all: bool, ranges: Option<Seq<BidirectionalRange>>) -> Result<
    Seq<int>,
    ErrorModel,
> {
    if all {
        Ok(Seq::new(n, |i: int| i))
    } else {
        match ranges {
            Some(rs) => match first_beyond(n, rs) {
                Some(i) => Err(ErrorModel::RangeOutOfBounds(i as usize)),
                None => Ok(selected_upto(n, rs)),
            },
            None => if n > 0 {
                Ok(seq![0int])
            } else {
                Err(ErrorModel::RangeOutOfBounds(0))
            },
        }
    }
}

pub open spec fn ranges_view(o: Option<&Vec<BidirectionalRange>>) -> Option<Seq<BidirectionalRange>> {
    match o {
        Some(v) => Some(v@),
        None => None,
    }
}

pub open spec fn opt_index(o: Option<usize>) -> Option<int> {
    match o {
        Some(i) => Some(i as int),
        None => None,
    }
}

pub open spec fn indices_view(r: Result<Vec<usize>, BinsError>) -> Result<Seq<int>, ErrorModel> {
    match r {
        Ok(v) => Ok(v@.map_values(|x: usize| x as int)),
        Err(e) => Err(e@),
    }
}

/// `first_beyond` is the least index at or beyond `n` held by a range.
pub proof fn lemma_first_beyond_is_least(n: nat, rs: Seq<BidirectionalRange>)
    ensures
        match first_beyond(n, rs) {
            Some(i) => i >= n && ranges_contain(rs, i) && forall|j: int|
                j >= n && ranges_contain(rs, j) ==> i <= j,
            None => forall|j: int| j >= n ==> !ranges_contain(rs, j),
        },
    decreases rs.len(),
{
    if rs.len() > 0 {
        let init = rs.drop_last();
        let l = rs.last();
        lemma_first_beyond_is_least(n, init);
        assert(rs[rs.len() - 1] == l);
        assert forall|j: int| ranges_contain(rs, j) <==> ranges_contain(init, j) || l.spec_contains(j) by {
            if ranges_contain(rs, j) {
                let k = choose|k: int| 0 <= k < rs.len() && #[trigger] rs[k].spec_contains(j);
                if k < rs.len() - 1 {
                    assert(init[k] == rs[k]);
                }
            }
            if ranges_contain(init, j) {
                let k = choose|k: int| 0 <= k < init.len() && #[trigger] init[k].spec_contains(j);
                assert(rs[k] == init[k]);
            }
        }
    }
}

/// Picks the files of a paste of `n` files to act on.
pub fn select_indices(n: usize, all: bool, ranges: Option<&Vec<BidirectionalRange>>) -> (r: Result<
    Vec<usize>,
    BinsError,
>)
    ensures
        indices_view(r) == selection_spec(n as nat, all, ranges_view(ranges)),
{
    if all {
        let mut out: Vec<usize> = Vec::new();
        let mut i: usize = 0;
        while i < n
            invariant
                i <= n,
                out@.len() == i,
                forall|j: int| 0 <= j < i ==> out@[j] == j,
            decreases n - i,
        {
            out.push(i);
            i = i + 1;
        }
        assert(out@.map_values(|x: usize| x as int) =~= Seq::new(n as nat, |j: int| j));
        return Ok(out);
    }
    match ranges {
        None => {
            if n > 0 {
                let out: Vec<usize> = vec![0];
                assert(out@.map_values(|x: usize| x as int) =~= seq![0int]);
                Ok(out)
            } else {
                Err(BinsError::RangeOutOfBounds(0))
            }
        },
        Some(rs) => {
            let mut beyond: Option<usize> = None;
            let mut k: usize = 0;
            while k < rs.len()
                invariant
                    k <= rs@.len(),
                    opt_index(beyond) == first_beyond(n as nat, rs@.subrange(0, k as int)),
                decreases rs@.len() - k,
            {
                let x = rs[k];
                let (low, high) = if x.start <= x.last {
                    (x.start, x.last)
                } else {
                    (x.last, x.start)
                };
                let cand: Option<usize> = if high >= n {
                    Some(if low >= n { low } else { n })
                } else {
                    None
                };
                beyond = match (beyond, cand) {
                    (None, c) => c,
                    (Some(a), None) => Some(a),
                    (Some(a), Some(b)) => Some(if a <= b { a } else { b }),
                };
                proof {
                    assert(rs@.subrange(0, k as int + 1).drop_last() =~= rs@.subrange(0, k as int));
                    assert(rs@.subrange(0, k as int + 1).last() == x);
                }
                k = k + 1;
            }
            proof {
                assert(rs@.subrange(0, k as int) =~= rs@);
            }
            if let Some(i) = beyond {
                return Err(BinsError::RangeOutOfBounds(i));
            }
            let mut out: Vec<usize> = Vec::new();
            let mut i: usize = 0;
            while i < n
                invariant
                    i <= n,
                    out@.map_values(|x: usize| x as int) =~= selected_upto(i as nat, rs@),
                decreases n - i,
            {
                if rs.any_contains(i) {
                    out.push(i);
                }
                i = i + 1;
                assert(out@.map_values(|x: usize| x as int) =~= selected_upto(i as nat, rs@));
            }
            Ok(out)
        },
    }
}

/// The selected indices climb strictly, stay below `n`, and are exactly the
/// indices below `n` that the ranges hold.
pub proof fn lemma_selection_ascending(n: nat, rs: Seq<BidirectionalRange>)
    ensures
        forall|a: int, b: int|
            0 <= a < b < selected_upto(n, rs).len() ==> selected_upto(n, rs)[a] < selected_upto(
                n,
                rs,
            )[b],
        forall|i: int| 0 <= i < n ==> (selected_upto(n, rs).contains(i) <==> ranges_contain(rs, i)),
        forall|k: int| 0 <= k < selected_upto(n, rs).len() ==> 0 <= #[trigger] selected_upto(n, rs)[k] < n,
    decreases n,
{
    if n > 0 {
        let m = (n - 1) as nat;
        lemma_selection_ascending(m, rs);
        let prev = selected_upto(m, rs);
        if ranges_contain(rs, m as int) {
            assert(prev.push(m as int)[prev.len() as int] == m);
            assert forall|i: int| 0 <= i < n implies (selected_upto(n, rs).contains(i) <==> ranges_contain(rs, i)) by {
                if i < m {
                    if prev.contains(i) {
                        let k = choose|k: int| 0 <= k < prev.len() && prev[k] == i;
                        assert(prev.push(m as int)[k] == i);
                    }
                    if selected_upto(n, rs).contains(i) {
                        let k = choose|k: int| 0 <= k < prev.len() + 1 && prev.push(m as int)[k] == i;
                        assert(k < prev.len());
                        assert(prev[k] == i);
                    }
                }
            }
        } else {
            assert forall|i: int| 0 <= i < n implies (selected_upto(n, rs).contains(i) <==> ranges_contain(rs, i)) by {
                if i == m {
                    if prev.contains(i) {
                        let k = choose|k: int| 0 <= k < prev.len() && prev[k] == i;
                    }
                }
            }
        }
    }
}

proof fn lemma_selected_same(n: nat, r1: Seq<BidirectionalRange>, r2: Seq<BidirectionalRange>)
    requires
        forall|i: int| ranges_contain(r1, i) == ranges_contain(r2, i),
    ensures
        selected_upto(n, r1) == selected_upto(n, r2),
    decreases n,
{
    if n > 0 {
        lemma_selected_same((n - 1) as nat, r1, r2);
    }
}

/// Which files are shown depends only on which indices the ranges hold, not
/// on how the ranges were written or in which direction they walk.
pub proof fn lemma_selection_by_membership(n: nat, r1: Seq<BidirectionalRange>, r2: Seq<BidirectionalRange>)
    requires
        forall|i: int| ranges_contain(r1, i) == ranges_contain(r2, i),
    ensures
        selection_spec(n, false, Some(r1)) == selection_spec(n, false, Some(r2)),
{
    lemma_first_beyond_is_least(n, r1);
    lemma_first_beyond_is_least(n, r2);
    lemma_selected_same(n, r1, r2);
    match (first_beyond(n, r1), first_beyond(n, r2)) {
        (Some(a), Some(b)) => {
            assert(a <= b && b <= a);
        },
        (Some(a), None) => {
            assert(ranges_contain(r2, a));
        },
        (None, Some(b)) => {
            assert(ranges_contain(r1, b));
        },
        (None, None) => {},
    }
}

/// A range and the same range written the other way round select the same
/// files.
pub proof fn lemma_reversed_range_selects_same(n: nat, a: usize, b: usize)
    ensures
        selection_spec(n, false, Some(seq![BidirectionalRange { start: a, last: b }]))
            == selection_spec(n, false, Some(seq![BidirectionalRange { start: b, last: a }])),
{
    let r1 = seq![BidirectionalRange { start: a, last: b }];
    let r2 = seq![BidirectionalRange { start: b, last: a }];
    assert forall|i: int| ranges_contain(r1, i) == ranges_contain(r2, i) by {
        if ranges_contain(r1, i) {
            assert(r2[0].spec_contains(i));
        }
        if ranges_contain(r2, i) {
            assert(r1[0].spec_contains(i));
        }
    }
    lemma_selection_by_membership(n, r1, r2);
}

/// What the caller asks of an upload.
#[derive(Clone, Copy, Debug, PartialEq, Eq, Structural)]
pub struct UploadFlags {
    pub private: bool,
    pub auth: bool,
}

/// Which upload capability carries the files.
#[derive(Clone, Copy, Debug, PartialEq, Eq, Structural)]
pub enum UploadMode {
    Single,
    Batch,
}

pub open spec fn visibility_feature(private: bool) -> BinFeature {
    if private {
        BinFeature::Private
    } else {
        BinFeature::Public
    }
}

pub open spec fn access_feature(auth: bool) -> BinFeature {
    if auth {
        BinFeature::Authenticated
    } else {
        BinFeature::Anonymous
    }
}

/// How `n` files are uploaded to a backend with `features` and upload
/// `capabilities`: the flags must be among the features; one file goes by
/// batch upload where there is one, else by single upload; more files need
/// batch upload.
pub open spec fn upload_mode_spec(
    features: Seq<BinFeature>,
    capabilities: Seq<BinFeature>,
    n: nat,
    flags: UploadFlags,
) -> Result<
    UploadMode,
    ErrorModel,
> {
    if !features.contains(visibility_feature(flags.private)) {
        Err(ErrorModel::UnsupportedFeature(visibility_feature(flags.private)))
    } else if !features.contains(access_feature(flags.auth)) {
        Err(ErrorModel::UnsupportedFeature(access_feature(flags.auth)))
    } else if capabilities.contains(BinFeature::BatchUpload) {
        Ok(UploadMode::Batch)
    } else if n == 1 && capabilities.contains(BinFeature::SingleUpload) {
        Ok(UploadMode::Single)
    } else if n == 1 {
        Err(ErrorModel::UnsupportedFeature(BinFeature::SingleUpload))
    } else {
        Err(ErrorModel::UnsupportedFeature(BinFeature::BatchUpload))
    }
}

pub open spec fn mode_result(r: Result<UploadMode, BinsError>) -> Result<UploadMode, ErrorModel> {
    match r {
        Ok(m) => Ok(m),
        Err(e) => Err(e@),
    }
}

pub fn has_feature(features: &Vec<BinFeature>, f: BinFeature) -> (r: bool)
    ensures
        r == features@.contains(f),
{
    let mut k: usize = 0;
    while k < features.len()
        invariant
            k <= features@.len(),
            forall|j: int| 0 <= j < k ==> features@[j] != f,
        decreases features@.len() - k,
    {
        if features[k] == f {
            assert(features@[k as int] == f);
            return true;
        }
        k = k + 1;
    }
    false
}

/// Checks an upload of `n` files against a backend's features and
/// capabilities before any request is made, and picks the capability that
/// carries it.
pub fn plan_upload(
    features: &Vec<BinFeature>,
    capabilities: &Vec<BinFeature>,
    n: usize,
    flags: UploadFlags,
) -> (r: Result<UploadMode, BinsError>)
    requires
        n >= 1,
    ensures
        mode_result(r) == upload_mode_spec(features@, capabilities@, n as nat, flags),
{
    let visibility = if flags.private {
        BinFeature::Private
    } else {
        BinFeature::Public
    };
    let access = if flags.auth {
        BinFeature::Authenticated
    } else {
        BinFeature::Anonymous
    };
    if !has_feature(features, visibility) {
        Err(BinsError::UnsupportedFeature(visibility))
    } else if !has_feature(features, access) {
        Err(BinsError::UnsupportedFeature(access))
    } else if has_feature(capabilities, BinFeature::BatchUpload) {
        Ok(UploadMode::Batch)
    } else if n == 1 && has_feature(capabilities, BinFeature::SingleUpload) {
        Ok(UploadMode::Single)
    } else if n == 1 {
        Err(BinsError::UnsupportedFeature(BinFeature::SingleUpload))
    } else {
        Err(BinsError::UnsupportedFeature(BinFeature::BatchUpload))
    }
}

/// A backend without batch upload refuses several files as unsupported,
/// before any request is made.
pub proof fn lemma_many_files_need_batch(
    features: Seq<BinFeature>,
    capabilities: Seq<BinFeature>,
    n: nat,
    flags: UploadFlags,
)
    requires
        n >= 2,
        !capabilities.contains(BinFeature::BatchUpload),
    ensures
        upload_mode_spec(features, capabilities, n, flags) matches Err(ErrorModel::UnsupportedFeature(_)),
{
}

/// A backend with batch upload takes any number of files, when it supports
/// the flags, as one batch: one request.
pub proof fn lemma_batch_takes_any_count(
    features: Seq<BinFeature>,
    capabilities: Seq<BinFeature>,
    n: nat,
    flags: UploadFlags,
)
    requires
        capabilities.contains(BinFeature::BatchUpload),
        features.contains(visibility_feature(flags.private)),
        features.contains(access_feature(flags.auth)),
    ensures
        upload_mode_spec(features, capabilities, n, flags) == Ok::<UploadMode, ErrorModel>(UploadMode::Batch),
{
}

/// The files of a fetched paste to show: `select_indices` over its files.
pub fn select_files(info: &Info, all: bool, ranges: Option<&Vec<BidirectionalRange>>) -> (r: Result<
    Vec<usize>,
    BinsError,
>)
    ensures
        indices_view(r) == selection_spec(info.files@.len(), all, ranges_view(ranges)),
        r matches Ok(v) ==> forall|k: int| 0 <= k < v@.len() ==> #[trigger] v@[k] < info.files@.len(),
{
    let r = select_indices(info.files.len(), all, ranges);
    proof {
        if r is Ok {
            let v = r->Ok_0;
            let n = info.files@.len();
            if !all && ranges is Some {
                lemma_selection_ascending(n, ranges->Some_0@);
            }
            let m = v@.map_values(|x: usize| x as int);
            assert(selection_spec(n, all, ranges_view(ranges)) == Ok::<Seq<int>, ErrorModel>(m));
            assert forall|k: int| 0 <= k < v@.len() implies #[trigger] v@[k] < n by {
                assert(m[k] == v@[k] as int);
                if all {
                    let all_n = Seq::new(n, |i: int| i);
                    assert(m == all_n);
                    assert(m.len() == v@.len());
                    assert(all_n[k] == k);
                } else if ranges is Some {
                    let rs = ranges->Some_0@;
                    assert(m == selected_upto(n, rs));
                    assert(0 <= selected_upto(n, rs)[k] < n);
                } else {
                    assert(m == seq![0int]);
                }
            }
        }
    }
    r
}

/// The page URLs, or with `raw` the raw URLs, of the chosen files, in the
/// order chosen.
pub fn file_urls(info: &Info, indices: &Vec<usize>, raw: bool) -> (r: Vec<String>)
    requires
        forall|k: int| 0 <= k < indices@.len() ==> #[trigger] indices@[k] < info.files@.len(),
    ensures
        r@.len() == indices@.len(),
        forall|k: int|
            0 <= k < indices@.len() ==> (#[trigger] r@[k])@ == if raw {
                info.files@[indices@[k] as int].raw_url@
            } else {
                info.files@[indices@[k] as int].html_url@
            },
{
    let mut out: Vec<String> = Vec::new();
    let mut k: usize = 0;
    while k < indices.len()
        invariant
            forall|j: int| 0 <= j < indices@.len() ==> #[trigger] indices@[j] < info.files@.len(),
            k <= indices@.len(),
            out@.len() == k,
            forall|j: int|
                0 <= j < k ==> (#[trigger] out@[j])@ == if raw {
                    info.files@[indices@[j] as int].raw_url@
                } else {
                    info.files@[indices@[j] as int].html_url@
                },
        decreases indices@.len() - k,
    {
        let f = &info.files[indices[k]];
        if raw {
            out.push(f.raw_url.clone());
        } else {
            out.push(f.html_url.clone());
        }
        k = k + 1;
    }
    out
}

} // verus!
