//! The arithmetic behind the analytics screen: rating history summary and
//! chart layout, the activity heat map, and the topic table.

use vstd::prelude::*;
use vstd::string::*;

use crate::models::{Submission, TagStat, Verdict};
use crate::text::push_char;
use crate::theme::{Rgb, Theme};

verus! {

// ---------------------------------------------------------------------------
// Rating history
// ---------------------------------------------------------------------------

/// The largest rating of a non-empty history.
pub open spec fn max_of(s: Seq<u32>) -> u32
    decreases s.len(),
{
    if s.len() <= 1 {
        s[0]
    } else if s.last() > max_of(s.drop_last()) {
        s.last()
    } else {
        max_of(s.drop_last())
    }
}

/// The smallest rating of a non-empty history.
pub open spec fn min_of(s: Seq<u32>) -> u32
    decreases s.len(),
{
    if s.len() <= 1 {
        s[0]
    } else if s.last() < min_of(s.drop_last()) {
        s.last()
    } else {
        min_of(s.drop_last())
    }
}

/// What the rating chart shows of a non-empty history.
#[derive(Clone, Copy, Debug, PartialEq, Eq, Structural)]
pub struct RatingChart {
    /// The peak rating.
    pub max: u32,
    /// The lowest rating.
    pub min: u32,
    /// The span the bars are scaled to: `max - min`, at least 50.
    pub range: u32,
    /// The latest rating.
    pub current: u32,
    /// How many bars fit: one per three columns, at least one.
    pub slots: usize,
    /// Every `step`-th rating gets a bar, so that the bars fit.
    pub step: usize,
}

/// The chart of a non-empty rating history drawn `width` columns wide.
pub open spec fn rating_chart_spec(ratings: Seq<u32>, width: u16) -> RatingChart {
    let mx = max_of(ratings);
    let mn = min_of(ratings);
    let slots: int = if width >= 2 { (width - 2) / 3 + 1 } else { 1 };
    let step: int = (ratings.len() + slots - 1) / slots;
    RatingChart {
        max: mx,
        min: mn,
        range: if mx - mn > 50 { (mx - mn) as u32 } else { 50 },
        current: ratings.last(),
        slots: slots as usize,
        step: if step > 1 { step as usize } else { 1 },
    }
}

/// Summarises a non-empty rating history for a chart `width` columns wide:
/// bars two columns wide with a one-column gap.
pub fn rating_chart(ratings: &[u32], width: u16) -> (c: RatingChart)
    requires
        ratings@.len() > 0,
    ensures
        c == rating_chart_spec(ratings@, width),
{
    let n = ratings.len();
    let mut mx = ratings[0];
    let mut mn = ratings[0];
    let mut i: usize = 1;
    while i < n
        invariant
            n == ratings@.len(),
            1 <= i <= n,
            mx == max_of(ratings@.subrange(0, i as int)),
            mn == min_of(ratings@.subrange(0, i as int)),
        decreases n - i,
    {
        proof {
            assert(ratings@.subrange(0, i + 1).drop_last() =~= ratings@.subrange(0, i as int));
        }
        if ratings[i] > mx {
            mx = ratings[i];
        }
        if ratings[i] < mn {
            mn = ratings[i];
        }
        i = i + 1;
    }
    proof {
        assert(ratings@.subrange(0, n as int) =~= ratings@);
        lemma_min_le_max(ratings@);
    }
    let range = if mx - mn > 50 { mx - mn } else { 50 };
    let w: usize = width as usize;
    let slots: usize = if w >= 2 { (w - 2) / 3 + 1 } else { 1 };
    let q = n / slots;
    let rem = n % slots;
    proof {
        assert(rem != 0 ==> q < n) by (nonlinear_arith)
            requires
                slots >= 1,
                q == n / slots,
                rem == n % slots,
        ;
    }
    let step0 = if rem == 0 { q } else { q + 1 };
    proof {
        let ni = n as int;
        let si = slots as int;
        assert((ni + si - 1) / si == step0 as int) by (nonlinear_arith)
            requires
                si >= 1,
                q as int == ni / si,
                rem as int == ni % si,
                rem == 0 ==> step0 as int == q as int,
                rem != 0 ==> step0 as int == q as int + 1,
        ;
    }
    let step = if step0 > 1 { step0 } else { 1 };
    RatingChart { max: mx, min: mn, range, current: ratings[n - 1], slots, step }
}

proof fn lemma_min_le_max(s: Seq<u32>)
    requires
        s.len() > 0,
    ensures
        min_of(s) <= max_of(s),
    decreases s.len(),
{
    if s.len() > 1 {
        lemma_min_le_max(s.drop_last());
    }
}

// ---------------------------------------------------------------------------
// Activity heat map
// ---------------------------------------------------------------------------

/// Nanoseconds in a day.
pub const NANOS_PER_DAY: i128 = 86_400_000_000_000;

/// Whole days from the time `t` (seconds since the epoch and nanoseconds past
/// them) to the time `now`, rounded toward zero as a duration's day count is.
pub open spec fn days_between(now: (i64, u32), t: (i64, u32)) -> int {
    let d = (now.0 - t.0) * 1_000_000_000 + (now.1 - t.1);
    if d >= 0 {
        d / (NANOS_PER_DAY as int)
    } else {
        -((-d) / (NANOS_PER_DAY as int))
    }
}

/// How many of the submissions were accepted `day` whole days before `now`.
pub open spec fn solves_on(subs: Seq<Submission>, now: (i64, u32), day: int) -> nat
    decreases subs.len(),
{
    if subs.len() == 0 {
        0
    } else {
        let s = subs.last();
        solves_on(subs.drop_last(), now, day) + if s.verdict == Verdict::Accepted && days_between(
            now,
            (s.submitted_at, s.submitted_nanos),
        ) == day {
            1nat
        } else {
            0nat
        }
    }
}

/// The heat-map day of a submission made at `t`, when it lies within the
/// last 365 days before `now`.
fn day_of(now_secs: i64, now_nanos: u32, t_secs: i64, t_nanos: u32) -> (r: Option<usize>)
    ensures
        match r {
            Some(k) => k < 365 && days_between((now_secs, now_nanos), (t_secs, t_nanos)) == k,
            None => !(0 <= days_between((now_secs, now_nanos), (t_secs, t_nanos)) < 365),
        },
{
    let d: i128 = (now_secs as i128 - t_secs as i128) * 1_000_000_000 + (now_nanos as i128 - t_nanos as i128);
    if d >= 0 {
        let q: u128 = (d as u128) / (NANOS_PER_DAY as u128);
        if q < 365 {
            Some(q as usize)
        } else {
            None
        }
    } else if d > -NANOS_PER_DAY {
        Some(0)
    } else {
        None
    }
}

/// Accepted submissions per day over the last 365 days before `now` (index
/// 0 is the last day), `now` being `now_secs` seconds since the epoch and
/// `now_nanos` nanoseconds; submissions outside that year, or not accepted,
/// are not counted.
pub fn daily_solves(subs: &[Submission], now_secs: i64, now_nanos: u32) -> (counts: Vec<u32>)
    requires
        subs@.len() <= u32::MAX,
    ensures
        counts@.len() == 365,
        forall|d: int| 0 <= d < 365 ==> #[trigger] counts@[d] == solves_on(subs@, (now_secs, now_nanos), d),
{
    let mut counts: Vec<u32> = Vec::new();
    let mut d: usize = 0;
    while d < 365
        invariant
            d <= 365,
            counts@.len() == d,
            forall|k: int| 0 <= k < d ==> #[trigger] counts@[k] == 0,
        decreases 365 - d,
    {
        counts.push(0);
        d = d + 1;
    }
    let n = subs.len();
    let mut i: usize = 0;
    while i < n
        invariant
            n == subs@.len(),
            n <= u32::MAX,
            i <= n,
            counts@.len() == 365,
            forall|k: int| 0 <= k < 365 ==> #[trigger] counts@[k] == solves_on(subs@.subrange(0, i as int), (now_secs, now_nanos), k),
            forall|k: int| 0 <= k < 365 ==> #[trigger] counts@[k] <= i,
        decreases n - i,
    {
        proof {
            assert(subs@.subrange(0, i + 1).drop_last() =~= subs@.subrange(0, i as int));
        }
        let s = &subs[i];
        if s.verdict == Verdict::Accepted {
            if let Some(k) = day_of(now_secs, now_nanos, s.submitted_at, s.submitted_nanos) {
                let v = counts[k] + 1;
                counts.set(k, v);
            }
        }
        i = i + 1;
    }
    assert(subs@.subrange(0, n as int) =~= subs@);
    counts
}

/// How many days ago the heat-map cell of `week` (0 is the oldest of
/// `weeks` shown) and weekday `day` is.
pub fn cell_days_ago(weeks: u16, week: u16, day: u16) -> (r: u32)
    requires
        week < weeks,
        day < 7,
    ensures
        r == (weeks - 1 - week) * 7 + day,
{
    (weeks as u32 - 1 - week as u32) * 7 + day as u32
}

/// The colour of a heat-map cell with `count` solves: the background for
/// none, then deeper colours for 1, 2–3, 4–6 and more.
pub open spec fn heat_colour(theme: Theme, count: u32) -> Rgb {
    if count == 0 {
        theme.bg
    } else if count == 1 {
        theme.accent_dim
    } else if count <= 3 {
        theme.accent
    } else if count <= 6 {
        theme.success
    } else {
        theme.warning
    }
}

/// The colour of a heat-map cell with `count` solves.
pub fn heat_color(theme: &Theme, count: u32) -> (c: Rgb)
    ensures
        c == heat_colour(*theme, count),
{
    if count == 0 {
        theme.bg
    } else if count == 1 {
        theme.accent_dim
    } else if count <= 3 {
        theme.accent
    } else if count <= 6 {
        theme.success
    } else {
        theme.warning
    }
}

// ---------------------------------------------------------------------------
// Topic table
// ---------------------------------------------------------------------------

/// The positions of the topics worked on at all, in order.
pub open spec fn worked_topics(stats: Seq<TagStat>) -> Seq<int>
    decreases stats.len(),
{
    if stats.len() == 0 {
        Seq::empty()
    } else {
        let earlier = worked_topics(stats.drop_last());
        if stats.last().solved + stats.last().attempted > 0 {
            earlier.push(stats.len() - 1)
        } else {
            earlier
        }
    }
}

/// The rows of the topic table: the topics worked on at all, at most `visible` of them.
pub fn table_topics(stats: &[TagStat], visible: usize) -> (r: Vec<usize>)
    ensures
        r@.map_values(|k: usize| k as int) == (if worked_topics(stats@).len() > visible {
            worked_topics(stats@).subrange(0, visible as int)
        } else {
            worked_topics(stats@)
        }),
{
    let mut r: Vec<usize> = Vec::new();
    let mut i: usize = 0;
    while i < stats.len() && r.len() < visible
        invariant
            i <= stats@.len(),
            r@.len() <= visible,
            r@.map_values(|k: usize| k as int) == worked_topics(stats@.subrange(0, i as int)),
        decreases stats.len() - i,
    {
        proof {
            assert(stats@.subrange(0, i + 1).drop_last() =~= stats@.subrange(0, i as int));
        }
        if stats[i].solved as u64 + stats[i].attempted as u64 > 0 {
            r.push(i);
            assert(r@.map_values(|k: usize| k as int) =~= worked_topics(stats@.subrange(0, i + 1)));
        }
        i = i + 1;
    }
    proof {
        lemma_worked_prefix(stats@, i as int);
        if i == stats@.len() {
            assert(stats@.subrange(0, i as int) =~= stats@);
        }
        let w = worked_topics(stats@);
        let p = worked_topics(stats@.subrange(0, i as int));
        if r@.len() == visible && i < stats@.len() {
            assert(p =~= w.subrange(0, visible as int));
        }
        if w.len() > visible && r@.len() < visible {
            assert(i == stats@.len());
        }
    }
    r
}

proof fn lemma_worked_prefix(stats: Seq<TagStat>, j: int)
    requires
        0 <= j <= stats.len(),
    ensures
        worked_topics(stats.subrange(0, j)).len() <= worked_topics(stats).len(),
        worked_topics(stats.subrange(0, j)) == worked_topics(stats).subrange(
            0,
            worked_topics(stats.subrange(0, j)).len() as int,
        ),
    decreases stats.len() - j,
{
    if j == stats.len() {
        assert(stats.subrange(0, j) =~= stats);
        assert(worked_topics(stats) =~= worked_topics(stats).subrange(0, worked_topics(stats).len() as int));
    } else {
        lemma_worked_prefix(stats, j + 1);
        assert(stats.subrange(0, j + 1).drop_last() =~= stats.subrange(0, j));
        let a = worked_topics(stats.subrange(0, j));
        let b = worked_topics(stats.subrange(0, j + 1));
        assert(a =~= b.subrange(0, a.len() as int));
    }
}

/// A label cut to `max` characters: kept whole when it fits, otherwise its
/// first `max - 1` characters followed by `…`.
pub open spec fn truncated(s: Seq<char>, max: nat) -> Seq<char> {
    if s.len() <= max {
        s
    } else {
        s.subrange(0, if max >= 1 { max - 1 } else { 0 }) + seq!['…']
    }
}

/// Cuts a label to at most `max` characters, marking the cut with `…`.
pub fn truncate(s: &str, max: usize) -> (r: String)
    ensures
        r@ == truncated(s@, max as nat),
{
    let n = s.unicode_len();
    if n <= max {
        String::from_str(s)
    } else {
        let keep = if max >= 1 { max - 1 } else { 0 };
        let mut r = String::from_str(s.substring_char(0, keep));
        push_char(&mut r, '…');
        r
    }
}

/// A truncated label has at most `max` characters (for `max` of at least
/// one), and a label that fits is left as it is.
pub proof fn truncation_fits(s: Seq<char>, max: nat)
    requires
        max >= 1,
    ensures
        truncated(s, max).len() <= max,
        s.len() <= max ==> truncated(s, max) == s,
        s.len() > max ==> truncated(s, max).subrange(0, max - 1) == s.subrange(0, max - 1),
{
    if s.len() > max {
        assert(truncated(s, max).subrange(0, max - 1) =~= s.subrange(0, max - 1));
    }
}

/// A heat-map cell with no solves shows the background; one with a solve
/// the dim accent; two or three the accent; four to six the success colour;
/// seven or more the warning colour. More solves never give a paler step.
pub proof fn heat_steps(theme: Theme, count: u32)
    ensures
        count == 0 ==> heat_colour(theme, count) == theme.bg,
        count == 1 ==> heat_colour(theme, count) == theme.accent_dim,
        2 <= count <= 3 ==> heat_colour(theme, count) == theme.accent,
        4 <= count <= 6 ==> heat_colour(theme, count) == theme.success,
        count >= 7 ==> heat_colour(theme, count) == theme.warning,
{
}

} // verus!
