//! Console presentation: the box-drawing helpers and the summary block, in
//! both its console and its machine-readable file form.

use vstd::prelude::*;
use vstd::string::*;
use crate::engine::{SummaryData, spec_sat_add, TickStats};
use crate::text::{
    spec_dec_digits, spec_fmt_cents4, spec_fmt_ms1, u64_to_dec, fmt_cents4, fmt_ms1,
};

verus! {

/// Interior width of the summary box, in characters.
pub const BOX_W: usize = 50;

/// `n` spaces.
pub open spec fn spec_spaces(n: nat) -> Seq<char>
    decreases n,
{
    if n == 0 {
        Seq::empty()
    } else {
        spec_spaces((n - 1) as nat).push(' ')
    }
}

/// A box row: the content between the side bars, padded to the box width.
pub open spec fn spec_box_line(s: Seq<char>) -> Seq<char> {
    let pad: nat = if s.len() < BOX_W {
        (BOX_W - s.len()) as nat
    } else {
        0
    };
    "│ "@ + s + spec_spaces(pad) + " │"@
}

/// Frame a content line for the summary box, padding it to the box width.
pub fn box_line(content: &str) -> (r: String)
    ensures
        r@ == spec_box_line(content@),
{
    let mut s = String::from_str("│ ");
    s.append(content);
    let n = content.unicode_len();
    let pad: usize = if n < BOX_W {
        BOX_W - n
    } else {
        0
    };
    let mut i: usize = 0;
    proof {
        reveal_strlit(" ");
    }
    while i < pad
        invariant
            i <= pad,
            s@ == "│ "@ + content@ + spec_spaces(i as nat),
            " "@ =~= seq![' '],
        decreases pad - i,
    {
        s.append(" ");
        i += 1;
    }
    s.append(" │");
    proof {
        assert(s@ =~= spec_box_line(content@));
    }
    s
}

/// The top border of the summary box.
pub open spec fn spec_box_top() -> Seq<char> {
    "┌────────────────────────────────────────────────────┐"@
}

pub fn box_top() -> (r: String)
    ensures
        r@ == spec_box_top(),
{
    String::from_str("┌────────────────────────────────────────────────────┐")
}

/// The divider of the summary box.
pub open spec fn spec_box_mid() -> Seq<char> {
    "├────────────────────────────────────────────────────┤"@
}

pub fn box_mid() -> (r: String)
    ensures
        r@ == spec_box_mid(),
{
    String::from_str("├────────────────────────────────────────────────────┤")
}

/// The bottom border of the summary box.
pub open spec fn spec_box_bottom() -> Seq<char> {
    "└────────────────────────────────────────────────────┘"@
}

pub fn box_bottom() -> (r: String)
    ensures
        r@ == spec_box_bottom(),
{
    String::from_str("└────────────────────────────────────────────────────┘")
}

/// A per-second rate rounded to the nearest integer: count per elapsed
/// milliseconds, saturating at the top of u64.
pub open spec fn spec_rate_per_sec(count: u64, elapsed_ms: u64) -> u64
    recommends
        elapsed_ms >= 1,
{
    let v = (count * 1000 + elapsed_ms / 2) / (elapsed_ms as int);
    if v > u64::MAX {
        u64::MAX
    } else {
        v as u64
    }
}

pub fn rate_per_sec(count: u64, elapsed_ms: u64) -> (r: u64)
    requires
        elapsed_ms >= 1,
    ensures
        r == spec_rate_per_sec(count, elapsed_ms),
{
    let num: u128 = (count as u128) * 1000 + (elapsed_ms / 2) as u128;
    let v: u128 = num / (elapsed_ms as u128);
    if v > u64::MAX as u128 {
        u64::MAX
    } else {
        v as u64
    }
}

/// The first content row: time, mid and regime.
pub open spec fn spec_summary_head(d: SummaryData) -> Seq<char> {
    "t="@ + spec_fmt_ms1(d.t_ms as nat) + "s  mid="@ + spec_fmt_cents4(d.mid_cents as nat)
        + "  regime="@ + d.regime.spec_name()
}

/// The order row: totals, rate, and the split into limits and markets.
pub open spec fn spec_summary_orders(d: SummaryData) -> Seq<char> {
    "orders: "@ + spec_dec_digits(spec_sat_add(d.stats.limits_generated, d.stats.markets_generated) as nat)
        + " ("@ + spec_dec_digits(spec_rate_per_sec(spec_sat_add(d.stats.limits_generated, d.stats.markets_generated), d.elapsed_ms) as nat)
        + "/s)  limits: "@ + spec_dec_digits(d.stats.limits_generated as nat) + "  mkt: "@
        + spec_dec_digits(d.stats.markets_generated as nat)
}

/// The cancel row: totals, rate, and the split into expiries and regime
/// cancels.
pub open spec fn spec_summary_cancels(d: SummaryData) -> Seq<char> {
    "cancels: "@ + spec_dec_digits(spec_sat_add(d.stats.cancels_expired, d.stats.cancels_regime) as nat)
        + " ("@ + spec_dec_digits(spec_rate_per_sec(spec_sat_add(d.stats.cancels_expired, d.stats.cancels_regime), d.elapsed_ms) as nat)
        + "/s)  expired: "@ + spec_dec_digits(d.stats.cancels_expired as nat) + "  regime: "@
        + spec_dec_digits(d.stats.cancels_regime as nat)
}

/// The load row: resting orders and message rate.
pub open spec fn spec_summary_active(d: SummaryData) -> Seq<char> {
    "active: "@ + spec_dec_digits(d.active_orders as nat) + "  msgs/s: "@ + spec_dec_digits(
        spec_rate_per_sec(d.stats.messages_sent, d.elapsed_ms) as nat,
    )
}

/// The console form of a summary block: a five-row box.
pub fn summary_box_lines(d: &SummaryData) -> (r: Vec<String>)
    requires
        d.elapsed_ms >= 1,
    ensures
        r@.len() == 6,
        r@[0]@ == spec_box_top(),
        r@[1]@ == spec_box_line(spec_summary_head(*d)),
        r@[2]@ == spec_box_line(spec_summary_orders(*d)),
        r@[3]@ == spec_box_line(spec_summary_cancels(*d)),
        r@[4]@ == spec_box_line(spec_summary_active(*d)),
        r@[5]@ == spec_box_bottom(),
{
    let mut out: Vec<String> = Vec::new();
    out.push(box_top());

    let mut head = String::from_str("t=");
    let num = fmt_ms1(d.t_ms);
    head.append(num.as_str());
    head.append("s  mid=");
    let num = fmt_cents4(d.mid_cents);
    head.append(num.as_str());
    head.append("  regime=");
    head.append(d.regime.name());
    out.push(box_line(head.as_str()));

    let total = d.stats.total_orders();
    let mut orders = String::from_str("orders: ");
    let num = u64_to_dec(total);
    orders.append(num.as_str());
    orders.append(" (");
    let num = u64_to_dec(rate_per_sec(total, d.elapsed_ms));
    orders.append(num.as_str());
    orders.append("/s)  limits: ");
    let num = u64_to_dec(d.stats.limits_generated);
    orders.append(num.as_str());
    orders.append("  mkt: ");
    let num = u64_to_dec(d.stats.markets_generated);
    orders.append(num.as_str());
    out.push(box_line(orders.as_str()));

    let total = d.stats.total_cancels();
    let mut cancels = String::from_str("cancels: ");
    let num = u64_to_dec(total);
    cancels.append(num.as_str());
    cancels.append(" (");
    let num = u64_to_dec(rate_per_sec(total, d.elapsed_ms));
    cancels.append(num.as_str());
    cancels.append("/s)  expired: ");
    let num = u64_to_dec(d.stats.cancels_expired);
    cancels.append(num.as_str());
    cancels.append("  regime: ");
    let num = u64_to_dec(d.stats.cancels_regime);
    cancels.append(num.as_str());
    out.push(box_line(cancels.as_str()));

    let mut act = String::from_str("active: ");
    let num = u64_to_dec(d.active_orders);
    act.append(num.as_str());
    act.append("  msgs/s: ");
    let num = u64_to_dec(rate_per_sec(d.stats.messages_sent, d.elapsed_ms));
    act.append(num.as_str());
    out.push(box_line(act.as_str()));

    out.push(box_bottom());
    out
}

/// The machine-readable file form of a summary block, one pipe-delimited
/// line.
pub open spec fn spec_summary_file_line(d: SummaryData) -> Seq<char> {
    "SUMMARY|t="@ + spec_fmt_ms1(d.t_ms as nat) + "|mid="@ + spec_fmt_cents4(d.mid_cents as nat)
        + "|regime="@ + d.regime.spec_name() + "|active="@ + spec_dec_digits(d.active_orders as nat)
        + "|limits="@ + spec_dec_digits(d.stats.limits_generated as nat) + "|markets="@
        + spec_dec_digits(d.stats.markets_generated as nat) + "|cancels_exp="@ + spec_dec_digits(
        d.stats.cancels_expired as nat,
    ) + "|cancels_reg="@ + spec_dec_digits(d.stats.cancels_regime as nat) + "|msgs="@
        + spec_dec_digits(d.stats.messages_sent as nat)
}

pub fn summary_file_line(d: &SummaryData) -> (r: String)
    ensures
        r@ == spec_summary_file_line(*d),
{
    let mut s = String::from_str("SUMMARY|t=");
    let num = fmt_ms1(d.t_ms);
    s.append(num.as_str());
    s.append("|mid=");
    let num = fmt_cents4(d.mid_cents);
    s.append(num.as_str());
    s.append("|regime=");
    s.append(d.regime.name());
    s.append("|active=");
    let num = u64_to_dec(d.active_orders);
    s.append(num.as_str());
    s.append("|limits=");
    let num = u64_to_dec(d.stats.limits_generated);
    s.append(num.as_str());
    s.append("|markets=");
    let num = u64_to_dec(d.stats.markets_generated);
    s.append(num.as_str());
    s.append("|cancels_exp=");
    let num = u64_to_dec(d.stats.cancels_expired);
    s.append(num.as_str());
    s.append("|cancels_reg=");
    let num = u64_to_dec(d.stats.cancels_regime);
    s.append(num.as_str());
    s.append("|msgs=");
    let num = u64_to_dec(d.stats.messages_sent);
    s.append(num.as_str());
    s
}

} // verus!
