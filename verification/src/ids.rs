//! Identifier generation: decimal rendering of integers and the
//! prefix-tagged identifiers used for models, scans and annotations.
//!
//! An identifier is `<prefix><timestamp>_<serial>`, where the prefix names
//! the kind of record ("model_", "scan_" or "annotation_"), the timestamp
//! comes from the clock, and the serial number is drawn from a counter that
//! the service increments on every generated identifier, so that two
//! identifiers generated within one timestamp tick still differ.

use vstd::prelude::*;
use vstd::string::StringExecFns;

verus! {

/// The decimal digit character for a value below ten.
pub open spec fn digit_char(d: nat) -> char {
    if d == 0 {
        '0'
    } else if d == 1 {
        '1'
    } else if d == 2 {
        '2'
    } else if d == 3 {
        '3'
    } else if d == 4 {
        '4'
    } else if d == 5 {
        '5'
    } else if d == 6 {
        '6'
    } else if d == 7 {
        '7'
    } else if d == 8 {
        '8'
    } else {
        '9'
    }
}

/// The decimal rendering of `n`, most significant digit first, with no
/// leading zeros (zero itself renders as "0").
pub open spec fn dec_digits(n: nat) -> Seq<char>
    decreases n,
{
    if n < 10 {
        seq![digit_char(n)]
    } else {
        dec_digits(n / 10).push(digit_char(n % 10))
    }
}

fn digit_str(d: u64) -> (r: &'static str)
    requires
        d < 10,
    ensures
        r@ == seq![digit_char(d as nat)],
{
    match d {
        0 => {
            proof {
                reveal_strlit("0");
                assert("0"@ =~= seq![digit_char(0)]);
            }
            "0"
        },
        1 => {
            proof {
                reveal_strlit("1");
                assert("1"@ =~= seq![digit_char(1)]);
            }
            "1"
        },
        2 => {
            proof {
                reveal_strlit("2");
                assert("2"@ =~= seq![digit_char(2)]);
            }
            "2"
        },
        3 => {
            proof {
                reveal_strlit("3");
                assert("3"@ =~= seq![digit_char(3)]);
            }
            "3"
        },
        4 => {
            proof {
                reveal_strlit("4");
                assert("4"@ =~= seq![digit_char(4)]);
            }
            "4"
        },
        5 => {
            proof {
                reveal_strlit("5");
                assert("5"@ =~= seq![digit_char(5)]);
            }
            "5"
        },
        6 => {
            proof {
                reveal_strlit("6");
                assert("6"@ =~= seq![digit_char(6)]);
            }
            "6"
        },
        7 => {
            proof {
                reveal_strlit("7");
                assert("7"@ =~= seq![digit_char(7)]);
            }
            "7"
        },
        8 => {
            proof {
                reveal_strlit("8");
                assert("8"@ =~= seq![digit_char(8)]);
            }
            "8"
        },
        _ => {
            proof {
                reveal_strlit("9");
                assert("9"@ =~= seq![digit_char(9)]);
            }
            "9"
        },
    }
}

/// Renders `n` in decimal.
pub fn dec_string(n: u64) -> (r: String)
    ensures
        r@ == dec_digits(n as nat),
    decreases n,
{
    if n < 10 {
        String::from_str(digit_str(n))
    } else {
        let mut s = dec_string(n / 10);
        s.append(digit_str(n % 10));
        proof {
            assert(dec_digits((n / 10) as nat).push(digit_char((n % 10) as nat)) =~= dec_digits(
                (n / 10) as nat,
            ) + seq![digit_char((n % 10) as nat)]);
        }
        s
    }
}

/// The identifier built from a prefix, a timestamp and a serial number.
pub open spec fn spec_id(prefix: Seq<char>, ts: u64, serial: u64) -> Seq<char> {
    prefix + dec_digits(ts as nat) + "_"@ + dec_digits(serial as nat)
}

pub open spec fn spec_model_id(ts: u64, serial: u64) -> Seq<char> {
    spec_id("model_"@, ts, serial)
}

pub open spec fn spec_scan_id(ts: u64, serial: u64) -> Seq<char> {
    spec_id("scan_"@, ts, serial)
}

pub open spec fn spec_annotation_id(ts: u64, serial: u64) -> Seq<char> {
    spec_id("annotation_"@, ts, serial)
}

fn make_id(prefix: &str, ts: u64, serial: u64) -> (r: String)
    ensures
        r@ == spec_id(prefix@, ts, serial),
{
    let mut s = prefix.to_owned();
    let t = dec_string(ts);
    s.append(t.as_str());
    s.append("_");
    let c = dec_string(serial);
    s.append(c.as_str());
    s
}

pub fn model_id(ts: u64, serial: u64) -> (r: String)
    ensures
        r@ == spec_model_id(ts, serial),
{
    make_id("model_", ts, serial)
}

pub fn scan_id(ts: u64, serial: u64) -> (r: String)
    ensures
        r@ == spec_scan_id(ts, serial),
{
    make_id("scan_", ts, serial)
}

pub fn annotation_id(ts: u64, serial: u64) -> (r: String)
    ensures
        r@ == spec_annotation_id(ts, serial),
{
    make_id("annotation_", ts, serial)
}

/// A model identifier always starts with the letter of its tier, so the two
/// tiers' key namespaces can never collide.
pub proof fn lemma_model_id_head(ts: u64, serial: u64)
    ensures
        spec_model_id(ts, serial).len() > 0,
        spec_model_id(ts, serial)[0] == 'm',
{
    reveal_strlit("model_");
}

/// A scan identifier always starts with 's'.
pub proof fn lemma_scan_id_head(ts: u64, serial: u64)
    ensures
        spec_scan_id(ts, serial).len() > 0,
        spec_scan_id(ts, serial)[0] == 's',
{
    reveal_strlit("scan_");
}

proof fn lemma_dec_digits_len(n: nat)
    ensures
        dec_digits(n).len() >= 1,
        n >= 10 ==> dec_digits(n).len() >= 2,
    decreases n,
{
    if n >= 10 {
        lemma_dec_digits_len(n / 10);
    }
}

proof fn lemma_dec_digits_no_underscore(n: nat)
    ensures
        forall|i: int| 0 <= i < dec_digits(n).len() ==> dec_digits(n)[i] != '_',
    decreases n,
{
    if n >= 10 {
        lemma_dec_digits_no_underscore(n / 10);
        assert forall|i: int| 0 <= i < dec_digits(n).len() implies dec_digits(n)[i] != '_' by {
            if i < dec_digits(n).len() - 1 {
                assert(dec_digits(n)[i] == dec_digits(n / 10)[i]);
            }
        }
    }
}

/// Decimal renderings are one-to-one: distinct values render as
/// distinct digit strings.
proof fn lemma_dec_digits_injective(a: nat, b: nat)
    requires
        dec_digits(a) == dec_digits(b),
    ensures
        a == b,
    decreases a,
{
    lemma_dec_digits_len(a);
    lemma_dec_digits_len(b);
    if a < 10 && b < 10 {
        assert(dec_digits(a)[0] == digit_char(a));
        assert(dec_digits(b)[0] == digit_char(b));
    } else if a < 10 {
        assert(dec_digits(a).len() == 1);
    } else if b < 10 {
        assert(dec_digits(b).len() == 1);
    } else {
        let la = dec_digits(a).len();
        assert(dec_digits(a).last() == digit_char(a % 10));
        assert(dec_digits(b).last() == digit_char(b % 10));
        assert(a % 10 == b % 10);
        assert(dec_digits(a).drop_last() =~= dec_digits(a / 10));
        assert(dec_digits(b).drop_last() =~= dec_digits(b / 10));
        lemma_dec_digits_injective(a / 10, b / 10);
        assert(a == (a / 10) * 10 + a % 10) by (nonlinear_arith);
        assert(b == (b / 10) * 10 + b % 10) by (nonlinear_arith);
    }
}

/// Two identifiers with one prefix agree only if both their timestamp
/// and their serial number agree: the serial counter alone already
/// keeps every generated identifier distinct.
pub proof fn lemma_id_injective(prefix: Seq<char>, ts1: u64, serial1: u64, ts2: u64, serial2: u64)
    requires
        spec_id(prefix, ts1, serial1) == spec_id(prefix, ts2, serial2),
    ensures
        ts1 == ts2,
        serial1 == serial2,
{
    reveal_strlit("_");
    let t1 = dec_digits(ts1 as nat);
    let t2 = dec_digits(ts2 as nat);
    let c1 = dec_digits(serial1 as nat);
    let c2 = dec_digits(serial2 as nat);
    lemma_dec_digits_len(ts1 as nat);
    lemma_dec_digits_len(ts2 as nat);
    lemma_dec_digits_len(serial1 as nat);
    lemma_dec_digits_len(serial2 as nat);
    lemma_dec_digits_no_underscore(ts1 as nat);
    lemma_dec_digits_no_underscore(ts2 as nat);
    lemma_dec_digits_no_underscore(serial1 as nat);
    lemma_dec_digits_no_underscore(serial2 as nat);
    let s1 = spec_id(prefix, ts1, serial1);
    let p = prefix.len() as int;
    assert(s1.len() == p + t1.len() + 1 + c1.len());
    assert(s1.len() == p + t2.len() + 1 + c2.len());
    assert(t1.len() == t2.len()) by {
        if t1.len() < t2.len() {
            let i = p + t1.len() as int;
            assert(s1[i] == '_');
            assert(s1[i] == t2[t1.len() as int]);
            assert(t2[t1.len() as int] != '_');
        } else if t2.len() < t1.len() {
            let i = p + t2.len() as int;
            assert(s1[i] == t1[t2.len() as int]);
            assert(s1[i] == '_');
            assert(t1[t2.len() as int] != '_');
        }
    }
    assert(t1 =~= t2) by {
        assert forall|i: int| 0 <= i < t1.len() implies t1[i] == t2[i] by {
            assert(s1[p + i] == t1[i]);
            assert(s1[p + i] == t2[i]);
        }
    }
    assert(c1 =~= c2) by {
        assert forall|i: int| 0 <= i < c1.len() implies c1[i] == c2[i] by {
            let base = p + t1.len() as int + 1;
            assert(s1[base + i] == c1[i]);
            assert(s1[base + i] == c2[i]);
        }
    }
    lemma_dec_digits_injective(ts1 as nat, ts2 as nat);
    lemma_dec_digits_injective(serial1 as nat, serial2 as nat);
}

/// Model identifiers generated with distinct serial numbers differ,
/// whatever the two timestamps were; the same holds for scans and
/// annotations.
pub proof fn lemma_fresh_ids_distinct(ts1: u64, serial1: u64, ts2: u64, serial2: u64)
    requires
        serial1 != serial2,
    ensures
        spec_model_id(ts1, serial1) != spec_model_id(ts2, serial2),
        spec_scan_id(ts1, serial1) != spec_scan_id(ts2, serial2),
        spec_annotation_id(ts1, serial1) != spec_annotation_id(ts2, serial2),
{
    if spec_model_id(ts1, serial1) == spec_model_id(ts2, serial2) {
        lemma_id_injective("model_"@, ts1, serial1, ts2, serial2);
    }
    if spec_scan_id(ts1, serial1) == spec_scan_id(ts2, serial2) {
        lemma_id_injective("scan_"@, ts1, serial1, ts2, serial2);
    }
    if spec_annotation_id(ts1, serial1) == spec_annotation_id(ts2, serial2) {
        lemma_id_injective("annotation_"@, ts1, serial1, ts2, serial2);
    }
}

} // verus!
