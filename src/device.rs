//! The device selector: a textual device specification read into a list of
//! device identifiers or a range of them.
use vstd::prelude::*;

use crate::error::DispatchError;
use crate::text::{chars_of, id_of_token, is_digit, parse_id, trim, trim_bounds, trim_end, trim_start};

verus! {

/// What a device specification says, as a mathematical value.
pub enum DeviceSpecModel {
    Empty,
    List(Seq<u32>),
    Range(u32, Option<u32>),
}

/// A parsed device specification.
#[derive(Debug)]
pub enum DeviceSpec {
    /// No accelerator: run on the CPU.
    Empty,
    /// Explicit identifiers in the order written, duplicates kept.
    List(Vec<u32>),
    /// The identifiers from `start` up to, not including, `end`; an absent
    /// end stands for the number of accelerators present.
    Range(u32, Option<u32>),
}

impl View for DeviceSpec {
    type V = DeviceSpecModel;

    open spec fn view(&self) -> DeviceSpecModel {
        match self {
            DeviceSpec::Empty => DeviceSpecModel::Empty,
            DeviceSpec::List(ids) => DeviceSpecModel::List(ids@),
            DeviceSpec::Range(a, b) => DeviceSpecModel::Range(*a, *b),
        }
    }
}

/// The position of the first `..` in `s` at or after `i`.
pub open spec fn marker_from(s: Seq<char>, i: int) -> Option<int>
    decreases s.len() - i,
{
    if i < 0 || i + 1 >= s.len() {
        None
    } else if s[i] == '.' && s[i + 1] == '.' {
        Some(i)
    } else {
        marker_from(s, i + 1)
    }
}

/// The position of the first range marker `..` in `s`.
pub open spec fn range_marker(s: Seq<char>) -> Option<int> {
    marker_from(s, 0)
}

/// The pieces of `s` between commas: one more than there are commas.
pub open spec fn split_commas(s: Seq<char>) -> Seq<Seq<char>>
    decreases s.len(),
{
    if s.len() == 0 {
        seq![Seq::<char>::empty()]
    } else {
        let prev = split_commas(s.drop_last());
        if s.last() == ',' {
            prev.push(Seq::<char>::empty())
        } else {
            prev.update(prev.len() - 1, prev.last().push(s.last()))
        }
    }
}

/// One comma-separated piece added to the identifiers read so far: blank
/// pieces are skipped, any other must be an identifier.
pub open spec fn add_token(ids: Option<Seq<u32>>, t: Seq<char>) -> Option<Seq<u32>> {
    match ids {
        None => None,
        Some(ids) => {
            let w = trim(t);
            if w.len() == 0 {
                Some(ids)
            } else {
                match id_of_token(w) {
                    Some(x) => Some(ids.push(x)),
                    None => None,
                }
            }
        },
    }
}

/// The identifiers of a list of pieces, or `None` if one of them is malformed.
pub open spec fn ids_of_tokens(ts: Seq<Seq<char>>) -> Option<Seq<u32>>
    decreases ts.len(),
{
    if ts.len() == 0 {
        Some(Seq::empty())
    } else {
        add_token(ids_of_tokens(ts.drop_last()), ts.last())
    }
}

/// One end of a range: blank, or an identifier.
pub open spec fn range_bound(t: Seq<char>) -> Option<Option<u32>> {
    let w = trim(t);
    if w.len() == 0 {
        Some(None)
    } else {
        match id_of_token(w) {
            Some(x) => Some(Some(x)),
            None => None,
        }
    }
}

/// A non-empty specification, read.
pub open spec fn parse_text(s: Seq<char>) -> Result<DeviceSpecModel, DispatchError> {
    match range_marker(s) {
        Some(m) => {
            let start = range_bound(s.subrange(0, m));
            let end = range_bound(s.subrange(m + 2, s.len() as int));
            if start is Some && end is Some {
                Ok(
                    DeviceSpecModel::Range(
                        match start->0 {
                            Some(a) => a,
                            None => 0,
                        },
                        end->0,
                    ),
                )
            } else {
                Err(DispatchError::InvalidDeviceSpec)
            }
        },
        None => match ids_of_tokens(split_commas(s)) {
            Some(ids) => Ok(DeviceSpecModel::List(ids)),
            None => Err(DispatchError::InvalidDeviceSpec),
        },
    }
}

/// What a specification selects, given whether this build has accelerator
/// support.
pub open spec fn parse_spec(spec: Option<Seq<char>>, accelerator_support: bool) -> Result<
    DeviceSpecModel,
    DispatchError,
> {
    match spec {
        None => Ok(DeviceSpecModel::Empty),
        Some(s) => if s.len() == 0 {
            Ok(DeviceSpecModel::Empty)
        } else if !accelerator_support {
            Err(DispatchError::AcceleratorUnavailable)
        } else {
            parse_text(s)
        },
    }
}

/// The identifiers `a, a + 1, ..., b - 1`; none when `b <= a`.
pub open spec fn range_ids(a: u32, b: u32) -> Seq<u32> {
    if a < b {
        Seq::new((b - a) as nat, |i: int| (a + i) as u32)
    } else {
        Seq::empty()
    }
}

impl DeviceSpecModel {
    /// The device identifiers selected, with `device_count` accelerators present.
    pub open spec fn ids(self, device_count: u32) -> Seq<u32> {
        match self {
            DeviceSpecModel::Empty => Seq::empty(),
            DeviceSpecModel::List(ids) => ids,
            DeviceSpecModel::Range(a, Some(b)) => range_ids(a, b),
            DeviceSpecModel::Range(a, None) => range_ids(a, device_count),
        }
    }
}

/// The mathematical value of a parse result.
pub open spec fn parse_result_view(r: Result<DeviceSpec, DispatchError>) -> Result<
    DeviceSpecModel,
    DispatchError,
> {
    match r {
        Ok(d) => Ok(d@),
        Err(e) => Err(e),
    }
}

/// The first `..` in `v`.
fn find_range_marker(v: &Vec<char>) -> (r: Option<usize>)
    ensures
        match r {
            Some(m) => range_marker(v@) == Some(m as int) && m + 2 <= v@.len(),
            None => range_marker(v@) is None,
        },
{
    let n = v.len();
    let mut i: usize = 0;
    while i < n
        invariant
            n == v@.len(),
            i <= n,
            range_marker(v@) == marker_from(v@, i as int),
        decreases n - i,
    {
        if i + 1 < n && v[i] == '.' && v[i + 1] == '.' {
            return Some(i);
        }
        i = i + 1;
    }
    None
}

/// Reads one end of a range from `v[lo..hi]`.
fn read_bound(v: &Vec<char>, lo: usize, hi: usize) -> (r: Option<Option<u32>>)
    requires
        lo <= hi <= v@.len(),
    ensures
        r == range_bound(v@.subrange(lo as int, hi as int)),
{
    let (a, b) = trim_bounds(v, lo, hi);
    if a == b {
        Some(None)
    } else {
        match parse_id(v, a, b) {
            Some(x) => Some(Some(x)),
            None => None,
        }
    }
}

/// Adds the piece `v[lo..hi]` to `ids`; false if it is malformed.
fn push_token(v: &Vec<char>, lo: usize, hi: usize, ids: &mut Vec<u32>) -> (ok: bool)
    requires
        lo <= hi <= v@.len(),
    ensures
        ok ==> add_token(Some(old(ids)@), v@.subrange(lo as int, hi as int)) == Some(
            final(ids)@,
        ),
        !ok ==> add_token(Some(old(ids)@), v@.subrange(lo as int, hi as int)) is None,
{
    let (a, b) = trim_bounds(v, lo, hi);
    if a == b {
        true
    } else {
        match parse_id(v, a, b) {
            Some(x) => {
                ids.push(x);
                true
            },
            None => false,
        }
    }
}

/// Reads a comma-separated list of identifiers.
fn parse_list(v: &Vec<char>) -> (r: Option<Vec<u32>>)
    ensures
        match r {
            Some(ids) => ids_of_tokens(split_commas(v@)) == Some(ids@),
            None => ids_of_tokens(split_commas(v@)) is None,
        },
{
    let n = v.len();
    let mut ids: Vec<u32> = Vec::new();
    let mut ok: bool = true;
    let mut start: usize = 0;
    let mut i: usize = 0;
    assert(split_commas(v@.subrange(0, 0)) =~= seq![Seq::<char>::empty()]);
    while i < n
        invariant
            n == v@.len(),
            start <= i <= n,
            split_commas(v@.subrange(0, i as int)).len() >= 1,
            split_commas(v@.subrange(0, i as int)).last() == v@.subrange(start as int, i as int),
            ok ==> ids_of_tokens(split_commas(v@.subrange(0, i as int)).drop_last()) == Some(
                ids@,
            ),
            !ok ==> ids_of_tokens(split_commas(v@.subrange(0, i as int)).drop_last()) is None,
        decreases n - i,
    {
        let ghost p = v@.subrange(0, i as int);
        let ghost q = v@.subrange(0, i + 1);
        let ghost sp = split_commas(p);
        assert(q.drop_last() =~= p);
        if v[i] == ',' {
            assert(split_commas(q) == sp.push(Seq::<char>::empty()));
            assert(split_commas(q).drop_last() =~= sp);
            assert(sp =~= sp.drop_last().push(sp.last()));
            if ok {
                ok = push_token(v, start, i, &mut ids);
            }
            start = i + 1;
            assert(split_commas(q).last() =~= v@.subrange(start as int, i + 1));
        } else {
            let ghost sq = sp.update(sp.len() - 1, sp.last().push(v@[i as int]));
            assert(split_commas(q) == sq);
            assert(sq.drop_last() =~= sp.drop_last());
            assert(sq.last() =~= v@.subrange(start as int, i + 1));
        }
        i = i + 1;
    }
    let ghost s = split_commas(v@);
    assert(v@.subrange(0, n as int) =~= v@);
    assert(s =~= s.drop_last().push(s.last()));
    if ok {
        ok = push_token(v, start, n, &mut ids);
    }
    if ok {
        Some(ids)
    } else {
        None
    }
}

impl DeviceSpec {
    /// Reads a device specification. An absent or empty one selects no
    /// accelerator; any other needs accelerator support in this build.
    pub fn parse(spec: Option<&str>, accelerator_support: bool) -> (r: Result<
        DeviceSpec,
        DispatchError,
    >)
        ensures
            parse_result_view(r) == parse_spec(
                match spec {
                    Some(s) => Some(s@),
                    None => None,
                },
                accelerator_support,
            ),
    {
        let text = match spec {
            None => {
                return Ok(DeviceSpec::Empty);
            },
            Some(s) => s,
        };
        let v = chars_of(text);
        if v.len() == 0 {
            return Ok(DeviceSpec::Empty);
        }
        if !accelerator_support {
            return Err(DispatchError::AcceleratorUnavailable);
        }
        match find_range_marker(&v) {
            Some(m) => {
                let start = read_bound(&v, 0, m);
                let end = read_bound(&v, m + 2, v.len());
                match (start, end) {
                    (Some(a), Some(b)) => Ok(
                        DeviceSpec::Range(
                            match a {
                                Some(a) => a,
                                None => 0,
                            },
                            b,
                        ),
                    ),
                    _ => Err(DispatchError::InvalidDeviceSpec),
                }
            },
            None => match parse_list(&v) {
                Some(ids) => Ok(DeviceSpec::List(ids)),
                None => Err(DispatchError::InvalidDeviceSpec),
            },
        }
    }

    /// Whether the selection depends on the number of accelerators present.
    pub fn needs_device_count(&self) -> (r: bool)
        ensures
            r == (self@ matches DeviceSpecModel::Range(_, None)),
    {
        match self {
            DeviceSpec::Range(_, None) => true,
            _ => false,
        }
    }

    /// The selected device identifiers, with `device_count` accelerators present.
    pub fn into_ids(self, device_count: u32) -> (r: Vec<u32>)
        ensures
            r@ == self@.ids(device_count),
    {
        match self {
            DeviceSpec::Empty => Vec::new(),
            DeviceSpec::List(ids) => ids,
            DeviceSpec::Range(a, b) => {
                let end = match b {
                    Some(b) => b,
                    None => device_count,
                };
                let mut out: Vec<u32> = Vec::new();
                let mut x: u32 = a;
                while x < end
                    invariant
                        a <= x,
                        a < end ==> x <= end,
                        a >= end ==> x == a,
                        out@ == range_ids(a, x),
                    decreases end - x,
                {
                    assert(range_ids(a, (x + 1) as u32) =~= range_ids(a, x).push(x));
                    out.push(x);
                    x = x + 1;
                }
                assert(out@ =~= range_ids(a, end));
                out
            },
        }
    }
}

/// Identifiers written out and separated by single commas.
pub open spec fn join_commas(ts: Seq<Seq<char>>) -> Seq<char>
    decreases ts.len(),
{
    if ts.len() <= 1 {
        if ts.len() == 0 {
            Seq::empty()
        } else {
            ts[0]
        }
    } else {
        join_commas(ts.drop_last()) + seq![','] + ts.last()
    }
}

/// No character of `s` is `c`.
pub open spec fn has_no(s: Seq<char>, c: char) -> bool {
    forall|k: int| 0 <= k < s.len() ==> #[trigger] s[k] != c
}

proof fn lemma_token_trimmed(t: Seq<char>)
    requires
        id_of_token(t) is Some,
    ensures
        trim(t) == t,
        has_no(t, ','),
        has_no(t, '.'),
{
    let d = if t[0] == '+' {
        t.drop_first()
    } else {
        t
    };
    assert(d.len() > 0 && is_digit(d[d.len() - 1]));
    assert(t[t.len() - 1] == d[d.len() - 1]);
    assert(t[0] == '+' || is_digit(d[0]));
    assert(trim_start(t) == t);
    assert(trim_end(t) == t);
    assert forall|k: int| 0 <= k < t.len() implies #[trigger] t[k] != ',' && t[k] != '.' by {
        if t[0] == '+' {
            if k > 0 {
                assert(t[k] == d[k - 1]);
                assert(is_digit(d[k - 1]));
            }
        } else {
            assert(is_digit(d[k]));
        }
    }
}

proof fn lemma_split_single(t: Seq<char>)
    requires
        has_no(t, ','),
    ensures
        split_commas(t) == seq![t],
    decreases t.len(),
{
    if t.len() > 0 {
        lemma_split_single(t.drop_last());
        assert(t.drop_last().push(t.last()) =~= t);
        assert(split_commas(t) =~= seq![t]);
    } else {
        assert(t =~= Seq::<char>::empty());
    }
}

proof fn lemma_split_after_comma(p: Seq<char>, t: Seq<char>)
    requires
        has_no(t, ','),
    ensures
        split_commas(p + seq![','] + t) == split_commas(p).push(t),
    decreases t.len(),
{
    let s = p + seq![','] + t;
    if t.len() == 0 {
        assert(s.drop_last() =~= p);
        assert(t =~= Seq::<char>::empty());
    } else {
        lemma_split_after_comma(p, t.drop_last());
        assert(s.drop_last() =~= p + seq![','] + t.drop_last());
        assert(t.drop_last().push(t.last()) =~= t);
        assert(split_commas(s) =~= split_commas(p).push(t));
    }
}

proof fn lemma_split_join(ts: Seq<Seq<char>>)
    requires
        ts.len() >= 1,
        forall|i: int| 0 <= i < ts.len() ==> id_of_token(#[trigger] ts[i]) is Some,
    ensures
        split_commas(join_commas(ts)) == ts,
        has_no(join_commas(ts), '.'),
        join_commas(ts).len() > 0,
    decreases ts.len(),
{
    lemma_token_trimmed(ts.last());
    if ts.len() == 1 {
        lemma_split_single(ts[0]);
        assert(seq![ts[0]] =~= ts);
    } else {
        let init = ts.drop_last();
        assert forall|i: int| 0 <= i < init.len() implies id_of_token(#[trigger] init[i]) is Some by {
            assert(init[i] == ts[i]);
        }
        lemma_split_join(init);
        lemma_split_after_comma(join_commas(init), ts.last());
        assert(init.push(ts.last()) =~= ts);
        let j = join_commas(ts);
        assert forall|k: int| 0 <= k < j.len() implies #[trigger] j[k] != '.' by {
            if k >= join_commas(init).len() + 1 {
                assert(j[k] == ts.last()[k - join_commas(init).len() - 1]);
            }
        }
    }
}

proof fn lemma_no_marker(s: Seq<char>, i: int)
    requires
        0 <= i,
        has_no(s, '.'),
    ensures
        marker_from(s, i) is None,
    decreases s.len() - i,
{
    if i + 1 < s.len() {
        assert(s[i] != '.');
        lemma_no_marker(s, i + 1);
    }
}

proof fn lemma_ids_of_id_tokens(ts: Seq<Seq<char>>)
    requires
        forall|i: int| 0 <= i < ts.len() ==> id_of_token(#[trigger] ts[i]) is Some,
    ensures
        ids_of_tokens(ts) == Some(ts.map_values(|t: Seq<char>| id_of_token(t)->0)),
    decreases ts.len(),
{
    if ts.len() > 0 {
        let init = ts.drop_last();
        assert forall|i: int| 0 <= i < init.len() implies id_of_token(#[trigger] init[i]) is Some by {
            assert(init[i] == ts[i]);
        }
        lemma_ids_of_id_tokens(init);
        lemma_token_trimmed(ts.last());
        assert(ts.map_values(|t: Seq<char>| id_of_token(t)->0) =~= init.map_values(
            |t: Seq<char>| id_of_token(t)->0,
        ).push(id_of_token(ts.last())->0));
    } else {
        assert(ts.map_values(|t: Seq<char>| id_of_token(t)->0) =~= Seq::<u32>::empty());
    }
}

/// A list of identifiers separated by commas selects exactly those
/// identifiers, each read once, in the order written.
pub proof fn lemma_list_keeps_order(ts: Seq<Seq<char>>)
    requires
        ts.len() >= 1,
        forall|i: int| 0 <= i < ts.len() ==> id_of_token(#[trigger] ts[i]) is Some,
    ensures
        parse_spec(Some(join_commas(ts)), true) == Ok::<DeviceSpecModel, DispatchError>(
            DeviceSpecModel::List(ts.map_values(|t: Seq<char>| id_of_token(t)->0)),
        ),
{
    lemma_split_join(ts);
    lemma_no_marker(join_commas(ts), 0);
    lemma_ids_of_id_tokens(ts);
}

proof fn lemma_marker_after(sa: Seq<char>, sb: Seq<char>, i: int)
    requires
        0 <= i <= sa.len(),
        has_no(sa, '.'),
    ensures
        marker_from(sa + seq!['.', '.'] + sb, i) == Some(sa.len() as int),
    decreases sa.len() - i,
{
    let s = sa + seq!['.', '.'] + sb;
    if i < sa.len() {
        assert(s[i] == sa[i]);
        lemma_marker_after(sa, sb, i + 1);
    } else {
        assert(s[i] == '.' && s[i + 1] == '.');
    }
}

/// `a..b` selects the identifiers from `a` up to, not including, `b`, in
/// increasing order: `b - a` of them when `a < b`, none otherwise.
pub proof fn lemma_range_selects_span(sa: Seq<char>, sb: Seq<char>, device_count: u32)
    requires
        id_of_token(sa) is Some,
        id_of_token(sb) is Some,
    ensures
        ({
            let a = id_of_token(sa)->0;
            let b = id_of_token(sb)->0;
            &&& parse_spec(Some(sa + seq!['.', '.'] + sb), true) == Ok::<
                DeviceSpecModel,
                DispatchError,
            >(DeviceSpecModel::Range(a, Some(b)))
            &&& DeviceSpecModel::Range(a, Some(b)).ids(device_count).len() == if a < b {
                b - a
            } else {
                0
            }
            &&& forall|i: int|
                0 <= i < DeviceSpecModel::Range(a, Some(b)).ids(device_count).len()
                    ==> #[trigger] DeviceSpecModel::Range(a, Some(b)).ids(device_count)[i]
                    == a + i
        }),
{
    let s = sa + seq!['.', '.'] + sb;
    lemma_token_trimmed(sa);
    lemma_token_trimmed(sb);
    lemma_marker_after(sa, sb, 0);
    assert(s.subrange(0, sa.len() as int) =~= sa);
    assert(s.subrange(sa.len() as int + 2, s.len() as int) =~= sb);
}

/// `..` selects every accelerator present: `0` up to the device count.
pub proof fn lemma_open_range_selects_all(device_count: u32)
    ensures
        parse_spec(Some(seq!['.', '.']), true) == Ok::<DeviceSpecModel, DispatchError>(
            DeviceSpecModel::Range(0, None),
        ),
        DeviceSpecModel::Range(0, None).ids(device_count) == range_ids(0, device_count),
        range_ids(0, device_count).len() == device_count,
        forall|i: int| 0 <= i < device_count ==> #[trigger] range_ids(0, device_count)[i] == i,
{
    let s = seq!['.', '.'];
    assert(marker_from(s, 0) == Some(0int));
    assert(s.subrange(0, 0) =~= Seq::<char>::empty());
    assert(s.subrange(2, 2) =~= Seq::<char>::empty());
}

} // verus!
