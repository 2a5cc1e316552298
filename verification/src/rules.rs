//! The `validate` rules of a step, checked against the response of its protocol
//! call. Three forms are understood, written with single spaces:
//!
//! * `response.status <op> <integer>`,
//! * `response.time <op> <n>ms` (the latency in milliseconds),
//! * `header['<name>'] exists` (header names compared without ASCII case),
//!
//! where `<op>` is one of `==`, `!=`, `<`, `<=`, `>`, `>=`. A rule of any other
//! form is not checked here and does not fail the step.
use vstd::prelude::*;
use crate::protocol::{split_char, split_on, ProtocolResponse};
use crate::text::{
    ends_with, eq_ignore_ascii_case, equal_ignoring_ascii_case, has_prefix, has_suffix, parse_u64,
    spec_parse_u64, starts_with, str_equal,
};
use crate::worker::{mock_latency_ms, spec_mock_latency_ms};

verus! {

/// A comparison operator.
#[derive(Debug, Clone, Copy, PartialEq, Eq, Structural)]
pub enum Comparison {
    Eq,
    Ne,
    Lt,
    Le,
    Gt,
    Ge,
}

/// The operator that a token names.
pub open spec fn comparison_named(op: Seq<char>) -> Option<Comparison> {
    if op == "=="@ {
        Some(Comparison::Eq)
    } else if op == "!="@ {
        Some(Comparison::Ne)
    } else if op == "<"@ {
        Some(Comparison::Lt)
    } else if op == "<="@ {
        Some(Comparison::Le)
    } else if op == ">"@ {
        Some(Comparison::Gt)
    } else if op == ">="@ {
        Some(Comparison::Ge)
    } else {
        None
    }
}

/// `a <op> b`.
pub open spec fn holds(op: Comparison, a: int, b: int) -> bool {
    match op {
        Comparison::Eq => a == b,
        Comparison::Ne => a != b,
        Comparison::Lt => a < b,
        Comparison::Le => a <= b,
        Comparison::Gt => a > b,
        Comparison::Ge => a >= b,
    }
}

/// The header name of a token `header['<name>']`.
pub open spec fn header_ref(t: Seq<char>) -> Option<Seq<char>> {
    if t.len() >= 10 && has_prefix(t, "header['"@) && has_suffix(t, "']"@) {
        Some(t.subrange(8, t.len() - 2))
    } else {
        None
    }
}

/// The response has a header named `name`, ASCII case aside.
pub open spec fn has_header(r: ProtocolResponse, name: Seq<char>) -> bool {
    exists|i: int| 0 <= i < r.headers.pairs().len() && eq_ignore_ascii_case(#[trigger] r.headers.pairs()[i].0, name)
}

/// Whether a `validate` rule holds for a response (a rule of a form that is not
/// understood holds).
pub open spec fn rule_holds(rule: Seq<char>, r: ProtocolResponse) -> bool {
    let parts = split_on(rule, ' ');
    if parts.len() == 3 && parts[0] == "response.status"@ && comparison_named(parts[1]) is Some
        && spec_parse_u64(parts[2]) is Some {
        holds(comparison_named(parts[1]).unwrap(), r.status_code as int, spec_parse_u64(parts[2]).unwrap() as int)
    } else if parts.len() == 3 && parts[0] == "response.time"@ && comparison_named(parts[1]) is Some
        && spec_mock_latency_ms(parts[2]) is Some {
        holds(
            comparison_named(parts[1]).unwrap(),
            r.latency_ms as int,
            spec_mock_latency_ms(parts[2]).unwrap() as int,
        )
    } else if parts.len() == 2 && parts[1] == "exists"@ && header_ref(parts[0]) is Some {
        has_header(r, header_ref(parts[0]).unwrap())
    } else {
        true
    }
}

fn comparison_of(op: &str) -> (r: Option<Comparison>)
    ensures
        r == comparison_named(op@),
{
    if str_equal(op, "==") {
        Some(Comparison::Eq)
    } else if str_equal(op, "!=") {
        Some(Comparison::Ne)
    } else if str_equal(op, "<") {
        Some(Comparison::Lt)
    } else if str_equal(op, "<=") {
        Some(Comparison::Le)
    } else if str_equal(op, ">") {
        Some(Comparison::Gt)
    } else if str_equal(op, ">=") {
        Some(Comparison::Ge)
    } else {
        None
    }
}

fn compare(op: Comparison, a: u64, b: u64) -> (r: bool)
    ensures
        r == holds(op, a as int, b as int),
{
    match op {
        Comparison::Eq => a == b,
        Comparison::Ne => a != b,
        Comparison::Lt => a < b,
        Comparison::Le => a <= b,
        Comparison::Gt => a > b,
        Comparison::Ge => a >= b,
    }
}

fn header_name_of(t: &str) -> (r: Option<&str>)
    ensures
        match r {
            Some(n) => header_ref(t@) == Some(n@),
            None => header_ref(t@) is None,
        },
{
    proof {
        reveal_strlit("header['");
        reveal_strlit("']");
    }
    let n = t.unicode_len();
    if n >= 10 && starts_with(t, "header['") && ends_with(t, "']") {
        Some(t.substring_char(8, n - 2))
    } else {
        None
    }
}

fn find_header(r: &ProtocolResponse, name: &str) -> (b: bool)
    ensures
        b == has_header(*r, name@),
{
    let n = r.headers.len();
    let mut i: usize = 0;
    while i < n
        invariant
            n == r.headers.pairs().len(),
            i <= n,
            forall|j: int| 0 <= j < i ==> !eq_ignore_ascii_case(#[trigger] r.headers.pairs()[j].0, name@),
        decreases n - i,
    {
        if equal_ignoring_ascii_case(r.headers.key_at(i).as_str(), name) {
            return true;
        }
        i = i + 1;
    }
    false
}

/// Checks a `validate` rule against a response.
pub fn rule_passes(rule: &str, r: &ProtocolResponse) -> (b: bool)
    ensures
        b == rule_holds(rule@, *r),
{
    let parts = split_char(rule, ' ');
    let ghost ps = parts@.map_values(|p: String| p@);
    assert(ps == split_on(rule@, ' '));
    if parts.len() == 3 {
        assert(ps[0] == parts@[0]@ && ps[1] == parts@[1]@ && ps[2] == parts@[2]@);
        if str_equal(parts[0].as_str(), "response.status") {
            if let Some(op) = comparison_of(parts[1].as_str()) {
                if let Some(v) = parse_u64(parts[2].as_str()) {
                    return compare(op, r.status_code as u64, v);
                }
            }
        }
        if str_equal(parts[0].as_str(), "response.time") {
            if let Some(op) = comparison_of(parts[1].as_str()) {
                if let Some(ms) = mock_latency_ms(parts[2].as_str()) {
                    proof {
                        reveal_strlit("response.status");
                        reveal_strlit("response.time");
                        assert("response.status"@ != "response.time"@) by {
                            assert("response.status"@[9] != "response.time"@[9]);
                        }
                    }
                    return compare(op, r.latency_ms, ms);
                }
            }
        }
        return true;
    }
    if parts.len() == 2 {
        assert(ps[0] == parts@[0]@ && ps[1] == parts@[1]@);
        if str_equal(parts[1].as_str(), "exists") {
            if let Some(name) = header_name_of(parts[0].as_str()) {
                return find_header(r, name);
            }
        }
    }
    true
}

} // verus!
