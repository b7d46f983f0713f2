//! Order and cancel value types and the binary wire codec.
//!
//! Prices are fixed-point cents (hundredths of the quote unit); times are
//! simulated milliseconds. The binary layout is little-endian with no
//! padding: magic `"OF"`, version, message type, then the record fields.

use vstd::prelude::*;
use vstd::bytes::*;
use vstd::slice::slice_subrange;
use vstd::string::*;
use crate::text::{
    spec_dec_digits, spec_fmt_cents2, spec_fmt_ms3, spec_digits_end, spec_dec_val, spec_is_digit,
    u64_to_dec, fmt_cents2, fmt_ms3, scan_u64,
};

verus! {

/// Which side of the book a message concerns.
#[derive(Clone, Copy, Debug, PartialEq, Eq, Structural)]
pub enum Side {
    Buy,
    Sell,
}

/// Whether an order rests in the book or executes immediately.
#[derive(Clone, Copy, Debug, PartialEq, Eq, Structural)]
pub enum OrderType {
    Limit,
    Market,
}

/// Sentinel price carried by buy market orders: 999999.00 in cents.
pub const MARKET_BUY_PRICE: u64 = 99_999_900;

/// Sentinel price carried by sell market orders.
pub const MARKET_SELL_PRICE: u64 = 0;

/// A single order message.
#[derive(Clone, Copy, Debug, PartialEq, Eq, Structural)]
pub struct Order {
    pub id: u64,
    pub side: Side,
    pub order_type: OrderType,
    /// Price in cents. Market orders carry a side-dependent sentinel.
    pub price: u64,
    /// Number of units, at least 1.
    pub size: u32,
    /// Creation time in simulated milliseconds.
    pub created_at: u64,
    /// Time-to-live in milliseconds: positive for limit orders, 0 for market.
    pub ttl: u64,
}

impl Side {
    /// The wire name of the side.
    pub open spec fn spec_name(self) -> Seq<char> {
        match self {
            Side::Buy => "BUY"@,
            Side::Sell => "SELL"@,
        }
    }

    pub fn name(self) -> (r: &'static str)
        ensures
            r@ == self.spec_name(),
    {
        match self {
            Side::Buy => "BUY",
            Side::Sell => "SELL",
        }
    }

    /// The byte that stands for the side on the binary wire.
    pub open spec fn spec_code(self) -> u8 {
        match self {
            Side::Buy => 1,
            Side::Sell => 2,
        }
    }

    pub fn code(self) -> (r: u8)
        ensures
            r == self.spec_code(),
    {
        match self {
            Side::Buy => 1,
            Side::Sell => 2,
        }
    }

    /// The side a wire byte stands for, if any.
    pub open spec fn spec_from_code(b: u8) -> Option<Side> {
        if b == 1 {
            Some(Side::Buy)
        } else if b == 2 {
            Some(Side::Sell)
        } else {
            None
        }
    }

    pub fn from_code(b: u8) -> (r: Option<Side>)
        ensures
            r == Side::spec_from_code(b),
    {
        if b == 1 {
            Some(Side::Buy)
        } else if b == 2 {
            Some(Side::Sell)
        } else {
            None
        }
    }
}

impl OrderType {
    /// The wire name of the order type.
    pub open spec fn spec_name(self) -> Seq<char> {
        match self {
            OrderType::Limit => "LIMIT"@,
            OrderType::Market => "MARKET"@,
        }
    }

    pub fn name(self) -> (r: &'static str)
        ensures
            r@ == self.spec_name(),
    {
        match self {
            OrderType::Limit => "LIMIT",
            OrderType::Market => "MARKET",
        }
    }

    /// The byte that stands for the order type on the binary wire.
    pub open spec fn spec_code(self) -> u8 {
        match self {
            OrderType::Limit => 1,
            OrderType::Market => 2,
        }
    }

    pub fn code(self) -> (r: u8)
        ensures
            r == self.spec_code(),
    {
        match self {
            OrderType::Limit => 1,
            OrderType::Market => 2,
        }
    }

    /// The order type a wire byte stands for, if any.
    pub open spec fn spec_from_code(b: u8) -> Option<OrderType> {
        if b == 1 {
            Some(OrderType::Limit)
        } else if b == 2 {
            Some(OrderType::Market)
        } else {
            None
        }
    }

    pub fn from_code(b: u8) -> (r: Option<OrderType>)
        ensures
            r == OrderType::spec_from_code(b),
    {
        if b == 1 {
            Some(OrderType::Limit)
        } else if b == 2 {
            Some(OrderType::Market)
        } else {
            None
        }
    }
}

impl Order {
    /// A well-formed order: positive size; market orders carry TTL 0 and the
    /// side's sentinel price; limit orders carry a positive TTL.
    pub open spec fn wf(self) -> bool {
        &&& self.size >= 1
        &&& (self.order_type is Market ==> {
            &&& self.ttl == 0
            &&& (self.side is Buy ==> self.price == MARKET_BUY_PRICE)
            &&& (self.side is Sell ==> self.price == MARKET_SELL_PRICE)
        })
        &&& (self.order_type is Limit ==> self.ttl > 0)
    }
}

/// Length in bytes of a binary order message.
pub const ORDER_WIRE_LEN: usize = 34;

/// Length in bytes of a binary cancel message.
pub const CANCEL_WIRE_LEN: usize = 20;

/// The binary bytes of an order: magic "OF", version 1, message type 1,
/// id, side code, type code, price in cents, size, creation time in ms,
/// all integers little-endian.
pub open spec fn spec_order_wire_binary(o: Order) -> Seq<u8> {
    seq![79u8, 70u8, 1u8, 1u8] + spec_u64_to_le_bytes(o.id) + seq![
        o.side.spec_code(),
        o.order_type.spec_code(),
    ] + spec_u64_to_le_bytes(o.price) + spec_u32_to_le_bytes(o.size) + spec_u64_to_le_bytes(
        o.created_at,
    )
}

/// The binary bytes of a cancel: magic "OF", version 1, message type 2,
/// id, cancel time in ms, integers little-endian.
pub open spec fn spec_cancel_wire_binary(id: u64, time_ms: u64) -> Seq<u8> {
    seq![79u8, 70u8, 1u8, 2u8] + spec_u64_to_le_bytes(id) + spec_u64_to_le_bytes(time_ms)
}

impl Order {
    /// Encode the order for the binary wire.
    pub fn to_wire_binary(&self) -> (r: Vec<u8>)
        ensures
            r@ == spec_order_wire_binary(*self),
            r@.len() == ORDER_WIRE_LEN,
    {
        proof {
            lemma_auto_spec_u64_to_from_le_bytes();
            lemma_auto_spec_u32_to_from_le_bytes();
        }
        let mut out: Vec<u8> = Vec::new();
        out.push(79);
        out.push(70);
        out.push(1);
        out.push(1);
        let mut id_bytes = u64_to_le_bytes(self.id);
        out.append(&mut id_bytes);
        out.push(self.side.code());
        out.push(self.order_type.code());
        let mut price_bytes = u64_to_le_bytes(self.price);
        out.append(&mut price_bytes);
        let mut size_bytes = u32_to_le_bytes(self.size);
        out.append(&mut size_bytes);
        let mut time_bytes = u64_to_le_bytes(self.created_at);
        out.append(&mut time_bytes);
        proof {
            assert(out@ =~= spec_order_wire_binary(*self));
        }
        out
    }
}

/// Encode a cancel for the binary wire.
pub fn cancel_to_wire_binary(order_id: u64, current_time_ms: u64) -> (r: Vec<u8>)
    ensures
        r@ == spec_cancel_wire_binary(order_id, current_time_ms),
        r@.len() == CANCEL_WIRE_LEN,
{
    proof {
        lemma_auto_spec_u64_to_from_le_bytes();
    }
    let mut out: Vec<u8> = Vec::new();
    out.push(79);
    out.push(70);
    out.push(1);
    out.push(2);
    let mut id_bytes = u64_to_le_bytes(order_id);
    out.append(&mut id_bytes);
    let mut time_bytes = u64_to_le_bytes(current_time_ms);
    out.append(&mut time_bytes);
    proof {
        assert(out@ =~= spec_cancel_wire_binary(order_id, current_time_ms));
    }
    out
}

/// The order a binary message stands for: `Some` exactly on byte strings
/// of the order layout with a known side and type code.
pub open spec fn spec_order_from_wire_binary(b: Seq<u8>) -> Option<Order> {
    if b.len() == ORDER_WIRE_LEN && b[0] == 79 && b[1] == 70 && b[2] == 1 && b[3] == 1
        && Side::spec_from_code(b[12]) is Some && OrderType::spec_from_code(b[13]) is Some {
        Some(
            Order {
                id: spec_u64_from_le_bytes(b.subrange(4, 12)),
                side: Side::spec_from_code(b[12])->0,
                order_type: OrderType::spec_from_code(b[13])->0,
                price: spec_u64_from_le_bytes(b.subrange(14, 22)),
                size: spec_u32_from_le_bytes(b.subrange(22, 26)),
                created_at: spec_u64_from_le_bytes(b.subrange(26, 34)),
                ttl: 0,
            },
        )
    } else {
        None
    }
}

/// Decode an order from the binary wire.
pub fn order_from_wire_binary(b: &[u8]) -> (r: Option<Order>)
    ensures
        r == spec_order_from_wire_binary(b@),
{
    if b.len() != ORDER_WIRE_LEN {
        return None;
    }
    if !(b[0] == 79 && b[1] == 70 && b[2] == 1 && b[3] == 1) {
        return None;
    }
    let side = match Side::from_code(b[12]) {
        Some(s) => s,
        None => {
            return None;
        },
    };
    let order_type = match OrderType::from_code(b[13]) {
        Some(t) => t,
        None => {
            return None;
        },
    };
    let id = u64_from_le_bytes(slice_subrange(b, 4, 12));
    let price = u64_from_le_bytes(slice_subrange(b, 14, 22));
    let size = u32_from_le_bytes(slice_subrange(b, 22, 26));
    let created_at = u64_from_le_bytes(slice_subrange(b, 26, 34));
    Some(Order { id, side, order_type, price, size, created_at, ttl: 0 })
}

/// The cancel a binary message stands for.
pub open spec fn spec_cancel_from_wire_binary(b: Seq<u8>) -> Option<(u64, u64)> {
    if b.len() == CANCEL_WIRE_LEN && b[0] == 79 && b[1] == 70 && b[2] == 1 && b[3] == 2 {
        Some(
            (spec_u64_from_le_bytes(b.subrange(4, 12)), spec_u64_from_le_bytes(b.subrange(12, 20))),
        )
    } else {
        None
    }
}

/// Decode a cancel from the binary wire, returning the order id and the
/// cancel time in milliseconds.
pub fn cancel_from_wire_binary(b: &[u8]) -> (r: Option<(u64, u64)>)
    ensures
        r == spec_cancel_from_wire_binary(b@),
{
    if b.len() != CANCEL_WIRE_LEN {
        return None;
    }
    if !(b[0] == 79 && b[1] == 70 && b[2] == 1 && b[3] == 2) {
        return None;
    }
    let id = u64_from_le_bytes(slice_subrange(b, 4, 12));
    let time = u64_from_le_bytes(slice_subrange(b, 12, 20));
    Some((id, time))
}

/// Binary decoding undoes binary encoding of an order, up to the TTL, which
/// does not travel on the wire: the decoder reports it as 0.
pub proof fn lemma_order_binary_round_trip(o: Order)
    ensures
        spec_order_from_wire_binary(spec_order_wire_binary(o)) == Some(Order { ttl: 0, ..o }),
{
    lemma_auto_spec_u64_to_from_le_bytes();
    lemma_auto_spec_u32_to_from_le_bytes();
    let b = spec_order_wire_binary(o);
    assert(b.subrange(4, 12) =~= spec_u64_to_le_bytes(o.id));
    assert(b.subrange(14, 22) =~= spec_u64_to_le_bytes(o.price));
    assert(b.subrange(22, 26) =~= spec_u32_to_le_bytes(o.size));
    assert(b.subrange(26, 34) =~= spec_u64_to_le_bytes(o.created_at));
}

/// Binary decoding undoes binary encoding of a cancel.
pub proof fn lemma_cancel_binary_round_trip(id: u64, time_ms: u64)
    ensures
        spec_cancel_from_wire_binary(spec_cancel_wire_binary(id, time_ms)) == Some((id, time_ms)),
{
    lemma_auto_spec_u64_to_from_le_bytes();
    let b = spec_cancel_wire_binary(id, time_ms);
    assert(b.subrange(4, 12) =~= spec_u64_to_le_bytes(id));
    assert(b.subrange(12, 20) =~= spec_u64_to_le_bytes(time_ms));
}

/// The text bytes of an order:
/// `ORDER|id=<n>|side=BUY|SELL|type=LIMIT|MARKET|price=<d.cc>|size=<n>|time=<s.mmm>`.
pub open spec fn spec_order_wire_text(o: Order) -> Seq<char> {
    "ORDER|id="@ + spec_dec_digits(o.id as nat) + "|side="@ + o.side.spec_name() + "|type="@
        + o.order_type.spec_name() + "|price="@ + spec_fmt_cents2(o.price as nat) + "|size="@
        + spec_dec_digits(o.size as nat) + "|time="@ + spec_fmt_ms3(o.created_at as nat)
}

/// The text bytes of a cancel: `CANCEL|id=<n>|time=<s.mmm>`.
pub open spec fn spec_cancel_wire_text(id: u64, time_ms: u64) -> Seq<char> {
    "CANCEL|id="@ + spec_dec_digits(id as nat) + "|time="@ + spec_fmt_ms3(time_ms as nat)
}

impl Order {
    /// Encode the order for the text wire.
    pub fn to_wire_text(&self) -> (r: String)
        ensures
            r@ == spec_order_wire_text(*self),
    {
        let mut s = String::from_str("ORDER|id=");
        let num = u64_to_dec(self.id);
        s.append(num.as_str());
        s.append("|side=");
        s.append(self.side.name());
        s.append("|type=");
        s.append(self.order_type.name());
        s.append("|price=");
        let num = fmt_cents2(self.price);
        s.append(num.as_str());
        s.append("|size=");
        let num = u64_to_dec(self.size as u64);
        s.append(num.as_str());
        s.append("|time=");
        let num = fmt_ms3(self.created_at);
        s.append(num.as_str());
        s
    }
}

/// Encode a cancel for the text wire.
pub fn cancel_to_wire_text(order_id: u64, current_time_ms: u64) -> (r: String)
    ensures
        r@ == spec_cancel_wire_text(order_id, current_time_ms),
{
    let mut s = String::from_str("CANCEL|id=");
    let num = u64_to_dec(order_id);
    s.append(num.as_str());
    s.append("|time=");
    let num = fmt_ms3(current_time_ms);
    s.append(num.as_str());
    s
}

/// Whether the literal stands at position `i` of `s`; on success, the
/// position just past it.
pub open spec fn spec_expect(s: Seq<char>, i: int, lit: Seq<char>) -> Option<int> {
    if 0 <= i && i + lit.len() <= s.len() && s.subrange(i, i + lit.len()) == lit {
        Some(i + lit.len())
    } else {
        None
    }
}

fn expect(s: &str, i: usize, lit: &str) -> (r: Option<usize>)
    requires
        i <= s@.len(),
    ensures
        r is Some ==> r->0 == spec_expect(s@, i as int, lit@)->0 && spec_expect(
            s@,
            i as int,
            lit@,
        ) is Some && r->0 <= s@.len(),
        r is None ==> spec_expect(s@, i as int, lit@) is None,
{
    let n = s.unicode_len();
    let m = lit.unicode_len();
    if m > n - i {
        return None;
    }
    let mut k: usize = 0;
    while k < m
        invariant
            k <= m,
            m == lit@.len(),
            n == s@.len(),
            i + m <= n,
            forall|q: int| 0 <= q < k ==> s@[i + q] == lit@[q],
        decreases m - k,
    {
        if s.get_char(i + k) != lit.get_char(k) {
            proof {
                assert(s@.subrange(i as int, i + m) != lit@) by {
                    assert(s@.subrange(i as int, i + m)[k as int] == s@[i + k]);
                }
            }
            return None;
        }
        k += 1;
    }
    proof {
        assert(s@.subrange(i as int, i + m) =~= lit@);
    }
    Some(i + m)
}

/// The number a digit run of exactly `width` digits at `i` stands for; on
/// success, also the position just past it.
pub open spec fn spec_scan_fixed(s: Seq<char>, i: int, width: int) -> Option<(u64, int)> {
    let e = spec_digits_end(s, i);
    let v = spec_dec_val(s.subrange(i, e));
    if e - i == width && v <= u64::MAX {
        Some((v as u64, e))
    } else {
        None
    }
}

/// The number the digit run at `i` stands for (at most 20 digits, fitting
/// u64); on success, also the position just past it.
pub open spec fn spec_scan(s: Seq<char>, i: int) -> Option<(u64, int)> {
    let e = spec_digits_end(s, i);
    let v = spec_dec_val(s.subrange(i, e));
    if e == i || e - i > 20 || v > u64::MAX {
        None
    } else {
        Some((v as u64, e))
    }
}

/// The order a text message stands for. The TTL does not travel on the
/// wire; the decoder reports it as 0.
pub open spec fn spec_order_from_wire_text(s: Seq<char>) -> Option<Order> {
    match spec_expect(s, 0, "ORDER|id="@) {
        None => None,
        Some(i1) => match spec_scan(s, i1) {
            None => None,
            Some((id, i2)) => {
                let side_probe = spec_expect(s, i2, "|side=BUY|type="@);
                let side_probe2 = spec_expect(s, i2, "|side=SELL|type="@);
                let side = if side_probe is Some {
                    Some((Side::Buy, side_probe->0))
                } else if side_probe2 is Some {
                    Some((Side::Sell, side_probe2->0))
                } else {
                    None
                };
                match side {
                    None => None,
                    Some((side, i3)) => {
                        let kind_probe = spec_expect(s, i3, "LIMIT|price="@);
                        let kind_probe2 = spec_expect(s, i3, "MARKET|price="@);
                        let kind = if kind_probe is Some {
                            Some((OrderType::Limit, kind_probe->0))
                        } else if kind_probe2 is Some {
                            Some((OrderType::Market, kind_probe2->0))
                        } else {
                            None
                        };
                        match kind {
                            None => None,
                            Some((order_type, i4)) => match spec_scan(s, i4) {
                                None => None,
                                Some((dollars, i5)) => match spec_expect(s, i5, "."@) {
                                    None => None,
                                    Some(i6) => match spec_scan_fixed(s, i6, 2) {
                                        None => None,
                                        Some((frac, i7)) => if dollars * 100 + frac > u64::MAX {
                                            None
                                        } else {
                                            let price = (dollars * 100 + frac) as u64;
                                            match spec_expect(s, i7, "|size="@) {
                                                None => None,
                                                Some(i8) => match spec_scan(s, i8) {
                                                    None => None,
                                                    Some((size, i9)) => if size > u32::MAX {
                                                        None
                                                    } else {
                                                        match spec_expect(s, i9, "|time="@) {
                                                            None => None,
                                                            Some(i10) => match spec_scan(s, i10) {
                                                                None => None,
                                                                Some((secs, i11)) => match spec_expect(
                                                                    s,
                                                                    i11,
                                                                    "."@,
                                                                ) {
                                                                    None => None,
                                                                    Some(i12) => match spec_scan_fixed(
                                                                        s,
                                                                        i12,
                                                                        3,
                                                                    ) {
                                                                        None => None,
                                                                        Some((ms, i13)) => if secs
                                                                            * 1000 + ms
                                                                            > u64::MAX || i13
                                                                            != s.len() {
                                                                            None
                                                                        } else {
                                                                            Some(
                                                                                Order {
                                                                                    id,
                                                                                    side,
                                                                                    order_type,
                                                                                    price,
                                                                                    size: size as u32,
                                                                                    created_at: (
                                                                                    secs * 1000
                                                                                        + ms) as u64,
                                                                                    ttl: 0,
                                                                                },
                                                                            )
                                                                        },
                                                                    },
                                                                },
                                                            },
                                                        }
                                                    },
                                                },
                                            }
                                        },
                                    },
                                },
                            },
                        }
                    },
                }
            },
        },
    }
}

/// Scan a run of exactly `width` digits.
fn scan_fixed(s: &str, i: usize, width: usize) -> (r: Option<(u64, usize)>)
    requires
        i <= s@.len(),
        1 <= width <= 20,
    ensures
        r matches Some(p) ==> spec_scan_fixed(s@, i as int, width as int) == Some(
            (p.0, p.1 as int),
        ) && p.1 <= s@.len(),
        r is None ==> spec_scan_fixed(s@, i as int, width as int) is None,
{
    match scan_u64(s, i) {
        Some((v, e)) => {
            if e - i == width {
                Some((v, e))
            } else {
                proof {
                    crate::text::lemma_digits_end_props(s@, i as int);
                }
                None
            }
        },
        None => {
            proof {
                crate::text::lemma_digits_end_props(s@, i as int);
                let e = spec_digits_end(s@, i as int);
                let v = spec_dec_val(s@.subrange(i as int, e));
                if e - i == width && v <= u64::MAX {
                    assert(e != i);
                    assert(e - i <= 20);
                    assert(false);
                }
            }
            None
        },
    }
}

/// Decode an order from the text wire.
pub fn order_from_wire_text(s: &str) -> (r: Option<Order>)
    ensures
        r == spec_order_from_wire_text(s@),
{
    let i1 = match expect(s, 0, "ORDER|id=") {
        Some(i) => i,
        None => {
            return None;
        },
    };
    let (id, i2) = match scan_u64(s, i1) {
        Some(p) => p,
        None => {
            return None;
        },
    };
    proof {
        crate::text::lemma_digits_end_props(s@, i1 as int);
    }
    let (side, i3) = match expect(s, i2, "|side=BUY|type=") {
        Some(i) => (Side::Buy, i),
        None => match expect(s, i2, "|side=SELL|type=") {
            Some(i) => (Side::Sell, i),
            None => {
                return None;
            },
        },
    };
    let (order_type, i4) = match expect(s, i3, "LIMIT|price=") {
        Some(i) => (OrderType::Limit, i),
        None => match expect(s, i3, "MARKET|price=") {
            Some(i) => (OrderType::Market, i),
            None => {
                return None;
            },
        },
    };
    let (dollars, i5) = match scan_u64(s, i4) {
        Some(p) => p,
        None => {
            return None;
        },
    };
    proof {
        crate::text::lemma_digits_end_props(s@, i4 as int);
    }
    let i6 = match expect(s, i5, ".") {
        Some(i) => i,
        None => {
            return None;
        },
    };
    let (frac, i7) = match scan_fixed(s, i6, 2) {
        Some(p) => p,
        None => {
            return None;
        },
    };
    if dollars > u64::MAX / 100 {
        proof {
            assert(dollars * 100 + frac > u64::MAX) by (nonlinear_arith)
                requires
                    dollars > u64::MAX / 100,
                    frac >= 0,
            ;
        }
        return None;
    }
    proof {
        assert(dollars * 100 <= u64::MAX / 100 * 100) by (nonlinear_arith)
            requires
                0 <= dollars <= u64::MAX / 100,
        ;
    }
    let prod = dollars * 100;
    if frac > u64::MAX - prod {
        return None;
    }
    proof {
        crate::text::lemma_digits_end_props(s@, i6 as int);
        let e = spec_digits_end(s@, i6 as int);
        let sub = s@.subrange(i6 as int, e);
        assert(forall|k: int| 0 <= k < sub.len() ==> spec_is_digit(#[trigger] sub[k])) by {
            assert(forall|k: int| 0 <= k < sub.len() ==> sub[k] == s@[i6 + k]);
        }
        crate::text::lemma_dec_val_bound(sub);
        assert(crate::text::spec_pow10(2) == 100) by {
            reveal_with_fuel(crate::text::spec_pow10, 3);
        }
        assert(frac < 100);
    }
    let price = prod + frac;
    let i8 = match expect(s, i7, "|size=") {
        Some(i) => i,
        None => {
            return None;
        },
    };
    let (size, i9) = match scan_u64(s, i8) {
        Some(p) => p,
        None => {
            return None;
        },
    };
    if size > u32::MAX as u64 {
        return None;
    }
    proof {
        crate::text::lemma_digits_end_props(s@, i8 as int);
    }
    let i10 = match expect(s, i9, "|time=") {
        Some(i) => i,
        None => {
            return None;
        },
    };
    let (secs, i11) = match scan_u64(s, i10) {
        Some(p) => p,
        None => {
            return None;
        },
    };
    proof {
        crate::text::lemma_digits_end_props(s@, i10 as int);
    }
    let i12 = match expect(s, i11, ".") {
        Some(i) => i,
        None => {
            return None;
        },
    };
    let (ms, i13) = match scan_fixed(s, i12, 3) {
        Some(p) => p,
        None => {
            return None;
        },
    };
    if secs > u64::MAX / 1000 {
        proof {
            assert(secs * 1000 + ms > u64::MAX) by (nonlinear_arith)
                requires
                    secs > u64::MAX / 1000,
                    ms >= 0,
            ;
        }
        return None;
    }
    proof {
        assert(secs * 1000 <= u64::MAX / 1000 * 1000) by (nonlinear_arith)
            requires
                0 <= secs <= u64::MAX / 1000,
        ;
    }
    let tprod = secs * 1000;
    if ms > u64::MAX - tprod {
        return None;
    }
    if i13 != s.unicode_len() {
        return None;
    }
    proof {
        crate::text::lemma_digits_end_props(s@, i12 as int);
        let e = spec_digits_end(s@, i12 as int);
        let sub = s@.subrange(i12 as int, e);
        assert(forall|k: int| 0 <= k < sub.len() ==> spec_is_digit(#[trigger] sub[k])) by {
            assert(forall|k: int| 0 <= k < sub.len() ==> sub[k] == s@[i12 + k]);
        }
        crate::text::lemma_dec_val_bound(sub);
        assert(crate::text::spec_pow10(3) == 1000) by {
            reveal_with_fuel(crate::text::spec_pow10, 4);
        }
        assert(ms < 1000);
    }
    Some(
        Order {
            id,
            side,
            order_type,
            price,
            size: size as u32,
            created_at: tprod + ms,
            ttl: 0,
        },
    )
}

/// The cancel a text message stands for.
pub open spec fn spec_cancel_from_wire_text(s: Seq<char>) -> Option<(u64, u64)> {
    match spec_expect(s, 0, "CANCEL|id="@) {
        None => None,
        Some(i1) => match spec_scan(s, i1) {
            None => None,
            Some((id, i2)) => match spec_expect(s, i2, "|time="@) {
                None => None,
                Some(i3) => match spec_scan(s, i3) {
                    None => None,
                    Some((secs, i4)) => match spec_expect(s, i4, "."@) {
                        None => None,
                        Some(i5) => match spec_scan_fixed(s, i5, 3) {
                            None => None,
                            Some((ms, i6)) => if secs * 1000 + ms > u64::MAX || i6 != s.len() {
                                None
                            } else {
                                Some((id, (secs * 1000 + ms) as u64))
                            },
                        },
                    },
                },
            },
        },
    }
}

/// Decode a cancel from the text wire, returning the order id and the
/// cancel time in milliseconds.
pub fn cancel_from_wire_text(s: &str) -> (r: Option<(u64, u64)>)
    ensures
        r == spec_cancel_from_wire_text(s@),
{
    let i1 = match expect(s, 0, "CANCEL|id=") {
        Some(i) => i,
        None => {
            return None;
        },
    };
    let (id, i2) = match scan_u64(s, i1) {
        Some(p) => p,
        None => {
            return None;
        },
    };
    proof {
        crate::text::lemma_digits_end_props(s@, i1 as int);
    }
    let i3 = match expect(s, i2, "|time=") {
        Some(i) => i,
        None => {
            return None;
        },
    };
    let (secs, i4) = match scan_u64(s, i3) {
        Some(p) => p,
        None => {
            return None;
        },
    };
    proof {
        crate::text::lemma_digits_end_props(s@, i3 as int);
    }
    let i5 = match expect(s, i4, ".") {
        Some(i) => i,
        None => {
            return None;
        },
    };
    let (ms, i6) = match scan_fixed(s, i5, 3) {
        Some(p) => p,
        None => {
            return None;
        },
    };
    if secs > u64::MAX / 1000 {
        proof {
            assert(secs * 1000 + ms > u64::MAX) by (nonlinear_arith)
                requires
                    secs > u64::MAX / 1000,
                    ms >= 0,
            ;
        }
        return None;
    }
    proof {
        assert(secs * 1000 <= u64::MAX / 1000 * 1000) by (nonlinear_arith)
            requires
                0 <= secs <= u64::MAX / 1000,
        ;
    }
    let tprod = secs * 1000;
    if ms > u64::MAX - tprod {
        return None;
    }
    if i6 != s.unicode_len() {
        return None;
    }
    proof {
        crate::text::lemma_digits_end_props(s@, i5 as int);
        let e = spec_digits_end(s@, i5 as int);
        let sub = s@.subrange(i5 as int, e);
        assert(forall|k: int| 0 <= k < sub.len() ==> spec_is_digit(#[trigger] sub[k])) by {
            assert(forall|k: int| 0 <= k < sub.len() ==> sub[k] == s@[i5 + k]);
        }
        crate::text::lemma_dec_val_bound(sub);
        assert(crate::text::spec_pow10(3) == 1000) by {
            reveal_with_fuel(crate::text::spec_pow10, 4);
        }
        assert(ms < 1000);
    }
    Some((id, tprod + ms))
}


/// A literal that stands right after a known prefix is found there.
proof fn lemma_expect_at(s: Seq<char>, pre: Seq<char>, lit: Seq<char>, rest: Seq<char>)
    requires
        s =~= pre + lit + rest,
    ensures
        spec_expect(s, pre.len() as int, lit) == Some(pre.len() + lit.len() as int),
{
    assert(s.subrange(pre.len() as int, pre.len() + lit.len() as int) =~= lit);
}

/// The decimal rendering of a number bounded by u64, standing after a known
/// prefix and followed by a non-digit (or the end), scans back to the
/// number.
proof fn lemma_scan_at(s: Seq<char>, pre: Seq<char>, n: u64, rest: Seq<char>)
    requires
        s =~= pre + spec_dec_digits(n as nat) + rest,
        rest.len() > 0 ==> !spec_is_digit(rest[0]),
    ensures
        spec_scan(s, pre.len() as int) == Some((n, pre.len() + spec_dec_digits(n as nat).len() as int)),
{
    let i = pre.len() as int;
    let d = spec_dec_digits(n as nat);
    crate::text::lemma_dec_digits_value(n as nat);
    crate::text::lemma_dec_digits_len_u64(n as nat);
    assert(s.subrange(i, i + d.len()) =~= d);
    if i + d.len() < s.len() {
        assert(s[i + d.len()] == rest[0]);
    }
    crate::text::lemma_digits_end_of_dec(s, i, n as nat);
}

/// A zero-padded rendering of a value below the matching power of ten,
/// standing after a known prefix and followed by a non-digit (or the end),
/// scans back to the value.
proof fn lemma_scan_fixed_at(s: Seq<char>, pre: Seq<char>, v: u64, width: nat, rest: Seq<char>)
    requires
        1 <= width <= 20,
        v < crate::text::spec_pow10(width),
        s =~= pre + crate::text::spec_dec_pad(v as nat, width) + rest,
        rest.len() > 0 ==> !spec_is_digit(rest[0]),
    ensures
        spec_scan_fixed(s, pre.len() as int, width as int) == Some((v, pre.len() + width as int)),
{
    let i = pre.len() as int;
    let d = crate::text::spec_dec_pad(v as nat, width);
    crate::text::lemma_dec_pad_value(v as nat, width);
    assert(s.subrange(i, i + d.len()) =~= d);
    assert forall|k: int| i <= k < i + width implies spec_is_digit(#[trigger] s[k]) by {
        assert(s[k] == d[k - i]);
    }
    if i + d.len() < s.len() {
        assert(s[i + d.len()] == rest[0]);
    }
    crate::text::lemma_digits_end_stops(s, i, i + width);
    assert(s.subrange(i, i + width) =~= d);
    assert(spec_dec_val(d) == v as nat % crate::text::spec_pow10(width));
    assert(v as nat % crate::text::spec_pow10(width) == v as nat) by (nonlinear_arith)
        requires
            0 <= v < crate::text::spec_pow10(width),
    ;
}

/// The tail of an order message, from the price onward, parses back to its
/// fields.
#[verifier::rlimit(100)]
proof fn lemma_order_text_tail(s: Seq<char>, p3: Seq<char>, price: u64, size: u32, created: u64)
    requires
        s =~= p3 + spec_dec_digits((price / 100) as nat) + "."@ + crate::text::spec_dec_pad(
            (price % 100) as nat,
            2,
        ) + "|size="@ + spec_dec_digits(size as nat) + "|time="@ + spec_dec_digits(
            (created / 1000) as nat,
        ) + "."@ + crate::text::spec_dec_pad((created % 1000) as nat, 3),
    ensures
        ({
            let ddollars = spec_dec_digits((price / 100) as nat);
            let dfrac = crate::text::spec_dec_pad((price % 100) as nat, 2);
            let dsize = spec_dec_digits(size as nat);
            let dsecs = spec_dec_digits((created / 1000) as nat);
            let i5 = p3.len() + ddollars.len() as int;
            let i6 = i5 + 1;
            let i7 = i6 + 2;
            let i8 = i7 + 6;
            let i9 = i8 + dsize.len() as int;
            let i10 = i9 + 6;
            let i11 = i10 + dsecs.len() as int;
            let i12 = i11 + 1;
            let i13 = i12 + 3;
            &&& spec_scan(s, p3.len() as int) == Some((price / 100, i5))
            &&& spec_expect(s, i5, "."@) == Some(i6)
            &&& spec_scan_fixed(s, i6, 2) == Some((price % 100, i7))
            &&& spec_expect(s, i7, "|size="@) == Some(i8)
            &&& spec_scan(s, i8) == Some((size as u64, i9))
            &&& spec_expect(s, i9, "|time="@) == Some(i10)
            &&& spec_scan(s, i10) == Some((created / 1000, i11))
            &&& spec_expect(s, i11, "."@) == Some(i12)
            &&& spec_scan_fixed(s, i12, 3) == Some((created % 1000, i13))
            &&& i13 == s.len()
        }),
{
    reveal_strlit(".");
    reveal_strlit("|size=");
    reveal_strlit("|time=");
    let ddollars = spec_dec_digits((price / 100) as nat);
    let dfrac = crate::text::spec_dec_pad((price % 100) as nat, 2);
    let dsize = spec_dec_digits(size as nat);
    let dsecs = spec_dec_digits((created / 1000) as nat);
    let dms = crate::text::spec_dec_pad((created % 1000) as nat, 3);
    let p4 = p3 + ddollars;
    let p5 = p4 + "."@;
    let p6 = p5 + dfrac;
    let p7 = p6 + "|size="@;
    let p8 = p7 + dsize;
    let p9 = p8 + "|time="@;
    let p10 = p9 + dsecs;
    let p11 = p10 + "."@;
    let p12 = p11 + dms;
    assert(s =~= p12);
    crate::text::lemma_dec_digits_value((price / 100) as nat);
    crate::text::lemma_dec_digits_value(size as nat);
    crate::text::lemma_dec_digits_value((created / 1000) as nat);
    crate::text::lemma_dec_pad_value((price % 100) as nat, 2);
    crate::text::lemma_dec_pad_value((created % 1000) as nat, 3);
    lemma_scan_at(s, p3, price / 100, s.skip(p4.len() as int));
    assert(p3 + ddollars + s.skip(p4.len() as int) =~= s);
    assert(s.skip(p4.len() as int)[0] == '.');
    lemma_expect_at(s, p4, "."@, s.skip(p5.len() as int));
    assert(p4 + "."@ + s.skip(p5.len() as int) =~= s);
    assert(crate::text::spec_pow10(2) == 100) by {
        reveal_with_fuel(crate::text::spec_pow10, 3);
    }
    lemma_scan_fixed_at(s, p5, price % 100, 2, s.skip(p6.len() as int));
    assert(p5 + dfrac + s.skip(p6.len() as int) =~= s);
    assert(s.skip(p6.len() as int)[0] == '|');
    lemma_expect_at(s, p6, "|size="@, s.skip(p7.len() as int));
    assert(p6 + "|size="@ + s.skip(p7.len() as int) =~= s);
    lemma_scan_at(s, p7, size as u64, s.skip(p8.len() as int));
    assert(p7 + dsize + s.skip(p8.len() as int) =~= s);
    assert(s.skip(p8.len() as int)[0] == '|');
    lemma_expect_at(s, p8, "|time="@, s.skip(p9.len() as int));
    assert(p8 + "|time="@ + s.skip(p9.len() as int) =~= s);
    lemma_scan_at(s, p9, created / 1000, s.skip(p10.len() as int));
    assert(p9 + dsecs + s.skip(p10.len() as int) =~= s);
    assert(s.skip(p10.len() as int)[0] == '.');
    lemma_expect_at(s, p10, "."@, s.skip(p11.len() as int));
    assert(p10 + "."@ + s.skip(p11.len() as int) =~= s);
    assert(crate::text::spec_pow10(3) == 1000) by {
        reveal_with_fuel(crate::text::spec_pow10, 4);
    }
    lemma_scan_fixed_at(s, p11, created % 1000, 3, s.skip(p12.len() as int));
    assert(p11 + dms + s.skip(p12.len() as int) =~= s);
    assert(s.skip(p12.len() as int).len() == 0);
}

/// The head of an order message parses back to its id, side and type.
#[verifier::rlimit(100)]
#[verifier::spinoff_prover]
proof fn lemma_order_text_head(o: Order)
    ensures
        ({
            let s = spec_order_wire_text(o);
            let did = spec_dec_digits(o.id as nat);
            let i1 = 9int;
            let i2 = i1 + did.len() as int;
            let i3 = i2 + if o.side is Buy {
                15int
            } else {
                16int
            };
            let i4 = i3 + if o.order_type is Limit {
                12int
            } else {
                13int
            };
            &&& spec_expect(s, 0, "ORDER|id="@) == Some(i1)
            &&& spec_scan(s, i1) == Some((o.id, i2))
            &&& (o.side is Buy ==> spec_expect(s, i2, "|side=BUY|type="@) == Some(i3))
            &&& (o.side is Sell ==> spec_expect(s, i2, "|side=BUY|type="@) is None
                && spec_expect(s, i2, "|side=SELL|type="@) == Some(i3))
            &&& (o.order_type is Limit ==> spec_expect(s, i3, "LIMIT|price="@) == Some(i4))
            &&& (o.order_type is Market ==> spec_expect(s, i3, "LIMIT|price="@) is None
                && spec_expect(s, i3, "MARKET|price="@) == Some(i4))
            &&& s =~= s.take(i4) + spec_dec_digits((o.price / 100) as nat) + "."@
                + crate::text::spec_dec_pad((o.price % 100) as nat, 2) + "|size="@
                + spec_dec_digits(o.size as nat) + "|time="@ + spec_dec_digits(
                (o.created_at / 1000) as nat,
            ) + "."@ + crate::text::spec_dec_pad((o.created_at % 1000) as nat, 3)
        }),
{
    let s = spec_order_wire_text(o);
    reveal_strlit("ORDER|id=");
    reveal_strlit("|side=");
    reveal_strlit("BUY");
    reveal_strlit("SELL");
    reveal_strlit("|type=");
    reveal_strlit("|side=BUY|type=");
    reveal_strlit("|side=SELL|type=");
    reveal_strlit("LIMIT");
    reveal_strlit("MARKET");
    reveal_strlit("|price=");
    reveal_strlit("LIMIT|price=");
    reveal_strlit("MARKET|price=");
    let did = spec_dec_digits(o.id as nat);
    let side_lit = if o.side is Buy {
        "|side=BUY|type="@
    } else {
        "|side=SELL|type="@
    };
    let kind_lit = if o.order_type is Limit {
        "LIMIT|price="@
    } else {
        "MARKET|price="@
    };
    assert(side_lit =~= "|side="@ + o.side.spec_name() + "|type="@);
    assert(kind_lit =~= o.order_type.spec_name() + "|price="@);
    let p0 = "ORDER|id="@;
    let p1 = p0 + did;
    let p2 = p1 + side_lit;
    let p3 = p2 + kind_lit;
    crate::text::lemma_dec_digits_value(o.id as nat);
    lemma_expect_at(s, Seq::empty(), p0, s.skip(p0.len() as int));
    assert(Seq::<char>::empty() + p0 + s.skip(p0.len() as int) =~= s);
    lemma_scan_at(s, p0, o.id, s.skip(p1.len() as int));
    assert(p0 + did + s.skip(p1.len() as int) =~= s);
    assert(s.skip(p1.len() as int)[0] == side_lit[0]);
    lemma_expect_at(s, p1, side_lit, s.skip(p2.len() as int));
    assert(p1 + side_lit + s.skip(p2.len() as int) =~= s);
    if o.side is Sell {
        assert(spec_expect(s, p1.len() as int, "|side=BUY|type="@) is None) by {
            if spec_expect(s, p1.len() as int, "|side=BUY|type="@) is Some {
                assert(s.subrange(p1.len() as int, p1.len() as int + 15) == "|side=BUY|type="@);
                assert(s[p1.len() as int + 7] == side_lit[7]);
                assert("|side=BUY|type="@[7] == 'U');
            }
        }
    }
    lemma_expect_at(s, p2, kind_lit, s.skip(p3.len() as int));
    assert(p2 + kind_lit + s.skip(p3.len() as int) =~= s);
    if o.order_type is Market {
        assert(spec_expect(s, p2.len() as int, "LIMIT|price="@) is None) by {
            if spec_expect(s, p2.len() as int, "LIMIT|price="@) is Some {
                assert(s.subrange(p2.len() as int, p2.len() as int + 12) == "LIMIT|price="@);
                assert(s[p2.len() as int] == kind_lit[0]);
                assert("LIMIT|price="@[0] == 'L');
            }
        }
    }
    assert(s.take(p3.len() as int) =~= p3);
    lemma_order_text_structure(o);
}

/// An order message is its head followed by its numeric tail.
proof fn lemma_order_text_structure(o: Order)
    ensures
        ({
            let s = spec_order_wire_text(o);
            let i4 = 9 + spec_dec_digits(o.id as nat).len() as int + (if o.side is Buy {
                15int
            } else {
                16int
            }) + (if o.order_type is Limit {
                12int
            } else {
                13int
            });
            s =~= s.take(i4) + spec_dec_digits((o.price / 100) as nat) + "."@
                + crate::text::spec_dec_pad((o.price % 100) as nat, 2) + "|size="@
                + spec_dec_digits(o.size as nat) + "|time="@ + spec_dec_digits(
                (o.created_at / 1000) as nat,
            ) + "."@ + crate::text::spec_dec_pad((o.created_at % 1000) as nat, 3)
        }),
{
    reveal_strlit("ORDER|id=");
    reveal_strlit("|side=");
    reveal_strlit("BUY");
    reveal_strlit("SELL");
    reveal_strlit("|type=");
    reveal_strlit("|price=");
    reveal_strlit("LIMIT");
    reveal_strlit("MARKET");
}

/// Text decoding undoes text encoding of an order, up to the TTL, which
/// does not travel on the wire: the decoder reports it as 0.
#[verifier::rlimit(100)]
#[verifier::spinoff_prover]
pub proof fn lemma_order_text_round_trip(o: Order)
    ensures
        spec_order_from_wire_text(spec_order_wire_text(o)) == Some(Order { ttl: 0, ..o }),
{
    let s = spec_order_wire_text(o);
    lemma_order_text_head(o);
    let did = spec_dec_digits(o.id as nat);
    let i1 = 9int;
    let i2 = i1 + did.len() as int;
    let i3 = i2 + if o.side is Buy {
        15int
    } else {
        16int
    };
    let i4 = i3 + if o.order_type is Limit {
        12int
    } else {
        13int
    };
    lemma_order_text_tail(s, s.take(i4), o.price, o.size, o.created_at);
    assert((o.price / 100) * 100 + o.price % 100 == o.price);
    assert((o.created_at / 1000) * 1000 + o.created_at % 1000 == o.created_at);
    assert(s.take(i4).len() == i4);
}

/// Text decoding undoes text encoding of a cancel.
#[verifier::rlimit(40)]
#[verifier::spinoff_prover]
pub proof fn lemma_cancel_text_round_trip(id: u64, time_ms: u64)
    ensures
        spec_cancel_from_wire_text(spec_cancel_wire_text(id, time_ms)) == Some((id, time_ms)),
{
    let s = spec_cancel_wire_text(id, time_ms);
    reveal_strlit("CANCEL|id=");
    reveal_strlit("|time=");
    reveal_strlit(".");
    let did = spec_dec_digits(id as nat);
    let dsecs = spec_dec_digits((time_ms / 1000) as nat);
    let dms = crate::text::spec_dec_pad((time_ms % 1000) as nat, 3);
    let p0 = "CANCEL|id="@;
    let p1 = p0 + did;
    let p2 = p1 + "|time="@;
    let p3 = p2 + dsecs;
    let p4 = p3 + "."@;
    let p5 = p4 + dms;
    assert(s =~= p5);
    crate::text::lemma_dec_digits_value(id as nat);
    crate::text::lemma_dec_digits_value((time_ms / 1000) as nat);
    crate::text::lemma_dec_pad_value((time_ms % 1000) as nat, 3);
    lemma_expect_at(s, Seq::empty(), p0, s.skip(p0.len() as int));
    assert(Seq::<char>::empty() + p0 + s.skip(p0.len() as int) =~= s);
    lemma_scan_at(s, p0, id, s.skip(p1.len() as int));
    assert(p0 + did + s.skip(p1.len() as int) =~= s);
    assert(s.skip(p1.len() as int)[0] == '|');
    lemma_expect_at(s, p1, "|time="@, s.skip(p2.len() as int));
    assert(p1 + "|time="@ + s.skip(p2.len() as int) =~= s);
    lemma_scan_at(s, p2, time_ms / 1000, s.skip(p3.len() as int));
    assert(p2 + dsecs + s.skip(p3.len() as int) =~= s);
    assert(s.skip(p3.len() as int)[0] == '.');
    lemma_expect_at(s, p3, "."@, s.skip(p4.len() as int));
    assert(p3 + "."@ + s.skip(p4.len() as int) =~= s);
    assert(crate::text::spec_pow10(3) == 1000) by {
        reveal_with_fuel(crate::text::spec_pow10, 4);
    }
    lemma_scan_fixed_at(s, p4, time_ms % 1000, 3, s.skip(p5.len() as int));
    assert(p4 + dms + s.skip(p5.len() as int) =~= s);
    assert(s.skip(p5.len() as int).len() == 0);
    assert((time_ms / 1000) * 1000 + time_ms % 1000 == time_ms);
    assert(p5.len() == s.len());
}

} // verus!
