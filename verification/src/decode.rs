//! Reading a test plan from its YAML document.
//!
//! The YAML text is first parsed into an untyped [`Node`] tree by serde_yaml; the
//! functions here then read that tree into the typed document model of
//! [`crate::dsl`], with the rules of the eDSL:
//!
//! * a record is a mapping; its fields are looked up by their text keys, other
//!   keys are ignored, and a field given twice is an error;
//! * an optional field that is absent or `null` is `None`; a required field must
//!   be present;
//! * a text field takes a string; outside the untagged choices (see below) it
//!   also takes a plain number or boolean, read as the text that the parser
//!   prints for it;
//! * a count takes a non-negative integer that fits its type; a fractional
//!   field (rates, speeds, thresholds) takes any number and keeps its decimal
//!   text; a free-form field keeps a copy of the value;
//! * the untagged choices (ramp-up, `within`, mock latency, and the `do` block of
//!   a loop) take the first of their forms that the value fits; inside them text
//!   fields take strings only.
use vstd::prelude::*;
use crate::keymap::KeyMap;
use crate::text::{owned, str_equal, all_digits, decimal_value};
use crate::value::{copy_of, Node};

verus! {

// ---------------------------------------------------------------------------
// Defects
// ---------------------------------------------------------------------------

/// Why a YAML value cannot be read as the part of the document it stands for.
#[derive(Debug, Clone)]
pub enum Defect {
    /// A required field is absent.
    MissingField(String),
    /// A field is given twice.
    DuplicateField(String),
    /// A field holds a value of the wrong type.
    InvalidType(String),
    /// A value fits none of the forms of an untagged choice.
    NoMatchingVariant(String),
}

/// The description of a missing field.
pub open spec fn missing_text(name: Seq<char>) -> Seq<char> {
    "missing field `"@ + name + "`"@
}

/// The description of a field given twice.
pub open spec fn duplicate_text(name: Seq<char>) -> Seq<char> {
    "duplicate field `"@ + name + "`"@
}

/// The description of a value of the wrong type.
pub open spec fn invalid_text(name: Seq<char>) -> Seq<char> {
    "invalid type for `"@ + name + "`"@
}

/// The description of a value that fits no form of an untagged choice.
pub open spec fn no_variant_text(name: Seq<char>) -> Seq<char> {
    "data did not match any variant of untagged enum `"@ + name + "`"@
}

/// The one-line description of a defect: what is wrong, then the name in backquotes.
pub open spec fn defect_text(d: Defect) -> Seq<char> {
    match d {
        Defect::MissingField(n) => missing_text(n@),
        Defect::DuplicateField(n) => duplicate_text(n@),
        Defect::InvalidType(n) => invalid_text(n@),
        Defect::NoMatchingVariant(n) => no_variant_text(n@),
    }
}

/// The defect of an optional field that cannot be read: given twice, else of the
/// wrong type.
pub open spec fn field_flaw(es: Seq<(Node, Node)>, name: Seq<char>) -> Seq<char> {
    if repeated(es, name) {
        duplicate_text(name)
    } else {
        invalid_text(name)
    }
}

/// The defect of a required field that cannot be read: given twice, else absent,
/// else of the wrong type.
pub open spec fn required_flaw(es: Seq<(Node, Node)>, name: Seq<char>) -> Seq<char> {
    if repeated(es, name) {
        duplicate_text(name)
    } else if field(es, name) is None {
        missing_text(name)
    } else {
        invalid_text(name)
    }
}

impl Defect {
    /// A one-line description of the defect.
    pub fn describe(&self) -> (m: String)
        ensures
            m@ == defect_text(*self),
    {
        let (what, name) = match self {
            Defect::MissingField(n) => ("missing field `", n),
            Defect::DuplicateField(n) => ("duplicate field `", n),
            Defect::InvalidType(n) => ("invalid type for `", n),
            Defect::NoMatchingVariant(n) => ("data did not match any variant of untagged enum `", n),
        };
        let mut m = owned(what);
        m.append(name.as_str());
        m.append("`");
        m
    }
}

fn missing(k: &str) -> (d: Defect)
    ensures
        defect_text(d) == missing_text(k@),
        d matches Defect::MissingField(n) && n@ == k@,
{
    Defect::MissingField(owned(k))
}

fn duplicate(k: &str) -> (d: Defect)
    ensures
        defect_text(d) == duplicate_text(k@),
        d matches Defect::DuplicateField(n) && n@ == k@,
{
    Defect::DuplicateField(owned(k))
}

fn invalid(k: &str) -> (d: Defect)
    ensures
        defect_text(d) == invalid_text(k@),
        d matches Defect::InvalidType(n) && n@ == k@,
{
    Defect::InvalidType(owned(k))
}

// ---------------------------------------------------------------------------
// Fields of a mapping
// ---------------------------------------------------------------------------

/// The key node `k` is the text `name`.
pub open spec fn key_is(k: Node, name: Seq<char>) -> bool {
    k matches Node::String(s) && s@ == name
}

/// Some entry of `es` has the key `name`.
#[verifier::opaque]
pub open spec fn has_entry(es: Seq<(Node, Node)>, name: Seq<char>) -> bool {
    exists|i: int| 0 <= i < es.len() && key_is(#[trigger] es[i].0, name)
}

/// Two entries of `es` have the key `name`.
#[verifier::opaque]
pub open spec fn repeated(es: Seq<(Node, Node)>, name: Seq<char>) -> bool {
    exists|i: int, j: int|
        0 <= i < j < es.len() && key_is(#[trigger] es[i].0, name) && key_is(#[trigger] es[j].0, name)
}

/// The value of the field `name` among the entries `es`, if it is present.
#[verifier::opaque]
pub open spec fn field(es: Seq<(Node, Node)>, name: Seq<char>) -> Option<Node> {
    if has_entry(es, name) {
        Some(es[choose|i: int| 0 <= i < es.len() && key_is(#[trigger] es[i].0, name)].1)
    } else {
        None
    }
}

/// The field is absent or `null`.
pub open spec fn blank(fv: Option<Node>) -> bool {
    fv is None || fv == Some(Node::Null)
}

/// The entries of a mapping node (none for another node).
pub open spec fn entries(n: Node) -> Seq<(Node, Node)> {
    match n {
        Node::Mapping(es) => es@,
        _ => Seq::empty(),
    }
}

/// The items of a sequence node (none for another node).
pub open spec fn items(n: Node) -> Seq<Node> {
    match n {
        Node::Sequence(xs) => xs@,
        _ => Seq::empty(),
    }
}

/// An optional reference taken as the value it refers to.
pub open spec fn deref_opt(o: Option<&Node>) -> Option<Node> {
    match o {
        Some(v) => Some(*v),
        None => None,
    }
}

fn key_matches(k: &Node, name: &str) -> (b: bool)
    ensures
        b == key_is(*k, name@),
{
    match k {
        Node::String(s) => str_equal(s.as_str(), name),
        _ => false,
    }
}

/// Looks up the field `name`: `None` when no entry has that key, an error when
/// two entries have it.
pub fn field_of<'a>(es: &'a Vec<(Node, Node)>, name: &str) -> (r: Result<Option<&'a Node>, Defect>)
    ensures
        r matches Err(d) ==> defect_text(d) == duplicate_text(name@),
        r is Err <==> repeated(es@, name@),
        r matches Ok(o) ==> deref_opt(o) == field(es@, name@),
{
    proof {
        reveal(has_entry);
        reveal(repeated);
        reveal(field);
    }
    let n = es.len();
    let mut found: Option<usize> = None;
    let mut i: usize = 0;
    while i < n
        invariant
            n == es@.len(),
            i <= n,
            match found {
                None => forall|j: int| 0 <= j < i ==> !key_is(#[trigger] es@[j].0, name@),
                Some(f) => f < i && key_is(es@[f as int].0, name@) && forall|j: int|
                    0 <= j < i && j != f ==> !key_is(#[trigger] es@[j].0, name@),
            },
        decreases n - i,
    {
        if key_matches(&es[i].0, name) {
            match found {
                Some(f) => {
                    proof {
                        reveal(repeated);
                    }
                    assert(key_is(es@[f as int].0, name@) && key_is(es@[i as int].0, name@));
                    return Err(duplicate(name));
                },
                None => {
                    found = Some(i);
                },
            }
        }
        i = i + 1;
    }
    match found {
        None => {
            assert(!has_entry(es@, name@));
            assert(!repeated(es@, name@));
            Ok(None)
        },
        Some(f) => {
            assert(has_entry(es@, name@)) by {
                assert(key_is(es@[f as int].0, name@));
            }
            let ghost c = choose|c: int| 0 <= c < es@.len() && key_is(#[trigger] es@[c].0, name@);
            assert(c == f);
            assert(!repeated(es@, name@));
            Ok(Some(&es[f].1))
        },
    }
}

// ---------------------------------------------------------------------------
// Scalars
// ---------------------------------------------------------------------------

/// The text `true`.
pub open spec fn true_text() -> Seq<char> {
    seq!['t', 'r', 'u', 'e']
}

/// The text `false`.
pub open spec fn false_text() -> Seq<char> {
    seq!['f', 'a', 'l', 's', 'e']
}

/// The text that a value stands for in a text field: a string, and, when not
/// `strict`, the printed form of a number or a boolean.
pub open spec fn text_of(v: Node, strict: bool) -> Option<Seq<char>> {
    match v {
        Node::String(s) => Some(s@),
        Node::Number(t) => if strict {
            None
        } else {
            Some(t@)
        },
        Node::Bool(b) => if strict {
            None
        } else if b {
            Some(true_text())
        } else {
            Some(false_text())
        },
        _ => None,
    }
}

/// What a text field takes: a string always, as its own text; a number or a
/// boolean only outside an untagged choice, as its printed text; nothing else
/// (`null`, a list, a mapping, a tagged value).
pub proof fn lemma_text_field_values(v: Node, strict: bool)
    ensures
        v matches Node::String(t) ==> text_of(v, strict) == Some(t@),
        v matches Node::Number(t) ==> text_of(v, strict) == if strict {
            None
        } else {
            Some(t@)
        },
        v is Bool ==> (text_of(v, strict) is Some <==> !strict),
        v is Null || v is Sequence || v is Mapping || v is Tagged ==> text_of(v, strict) is None,
{
}

/// Reads a value as text.
pub fn read_text(v: &Node, strict: bool, name: &str) -> (r: Result<String, Defect>)
    ensures
        r matches Err(d) ==> defect_text(d) == invalid_text(name@),
        r is Ok <==> text_of(*v, strict) is Some,
        r matches Ok(t) ==> Some(t@) == text_of(*v, strict),
{
    match v {
        Node::String(s) => Ok(s.clone()),
        Node::Number(t) => if strict {
            Err(invalid(name))
        } else {
            Ok(t.clone())
        },
        Node::Bool(b) => if strict {
            Err(invalid(name))
        } else if *b {
            proof {
                reveal_strlit("true");
            }
            let t = owned("true");
            assert(t@ =~= true_text());
            Ok(t)
        } else {
            proof {
                reveal_strlit("false");
            }
            let t = owned("false");
            assert(t@ =~= false_text());
            Ok(t)
        },
        _ => Err(invalid(name)),
    }
}

/// An optional string taken as text.
pub open spec fn opt_view(o: Option<String>) -> Option<Seq<char>> {
    match o {
        Some(s) => Some(s@),
        None => None,
    }
}

/// The optional text field `name` can be read.
pub open spec fn text_ok(es: Seq<(Node, Node)>, name: Seq<char>, strict: bool) -> bool {
    !repeated(es, name) && (blank(field(es, name)) || text_of(field(es, name).unwrap(), strict) is Some)
}

/// The reading of the optional text field `name`.
pub open spec fn text_at(es: Seq<(Node, Node)>, name: Seq<char>, strict: bool) -> Option<Seq<char>> {
    if blank(field(es, name)) {
        None
    } else {
        text_of(field(es, name).unwrap(), strict)
    }
}

/// Reads the optional text field `name`.
pub fn opt_text(es: &Vec<(Node, Node)>, name: &str, strict: bool) -> (r: Result<Option<String>, Defect>)
    ensures
        r matches Err(d) ==> defect_text(d) == field_flaw(es@, name@),
        r is Ok <==> text_ok(es@, name@, strict),
        r matches Ok(t) ==> opt_view(t) == text_at(es@, name@, strict),
{
    match field_of(es, name)? {
        None => Ok(None),
        Some(Node::Null) => Ok(None),
        Some(v) => {
            let t = read_text(v, strict, name)?;
            Ok(Some(t))
        },
    }
}

/// The required text field `name` can be read.
pub open spec fn req_text_ok(es: Seq<(Node, Node)>, name: Seq<char>, strict: bool) -> bool {
    !repeated(es, name) && field(es, name) is Some && text_of(field(es, name).unwrap(), strict) is Some
}

/// The reading of the required text field `name`.
pub open spec fn req_text_at(es: Seq<(Node, Node)>, name: Seq<char>, strict: bool) -> Seq<char> {
    text_of(field(es, name).unwrap(), strict).unwrap()
}

/// Reads the required text field `name`.
pub fn req_text(es: &Vec<(Node, Node)>, name: &str, strict: bool) -> (r: Result<String, Defect>)
    ensures
        r matches Err(d) ==> defect_text(d) == required_flaw(es@, name@),
        r is Ok <==> req_text_ok(es@, name@, strict),
        r matches Ok(t) ==> t@ == req_text_at(es@, name@, strict),
{
    match field_of(es, name)? {
        None => Err(missing(name)),
        Some(v) => read_text(v, strict, name),
    }
}

/// The optional boolean field `name` can be read.
pub open spec fn flag_ok(es: Seq<(Node, Node)>, name: Seq<char>) -> bool {
    !repeated(es, name) && (blank(field(es, name)) || field(es, name).unwrap() is Bool)
}

/// The reading of the optional boolean field `name`.
pub open spec fn flag_at(es: Seq<(Node, Node)>, name: Seq<char>) -> Option<bool> {
    match field(es, name) {
        Some(Node::Bool(b)) => Some(b),
        _ => None,
    }
}

/// Reads the optional boolean field `name`.
pub fn opt_flag(es: &Vec<(Node, Node)>, name: &str) -> (r: Result<Option<bool>, Defect>)
    ensures
        r matches Err(d) ==> defect_text(d) == field_flaw(es@, name@),
        r is Ok <==> flag_ok(es@, name@),
        r matches Ok(b) ==> b == flag_at(es@, name@),
{
    match field_of(es, name)? {
        None => Ok(None),
        Some(Node::Null) => Ok(None),
        Some(Node::Bool(b)) => Ok(Some(*b)),
        Some(_) => Err(invalid(name)),
    }
}

/// The non-negative integer, at most `max`, that a value stands for.
pub open spec fn count_of(v: Node, max: int) -> Option<int> {
    match v {
        Node::Number(t) => if t@.len() > 0 && all_digits(t@) && decimal_value(t@) <= max {
            Some(decimal_value(t@))
        } else {
            None
        },
        _ => None,
    }
}

proof fn lemma_decimal_value_nonneg(s: Seq<char>)
    requires
        all_digits(s),
    ensures
        decimal_value(s) >= 0,
    decreases s.len(),
{
    if s.len() > 0 {
        lemma_decimal_value_nonneg(s.drop_last());
    }
}

/// Reads a value as an integer in `0..=max`.
fn read_count(v: &Node, max: u64, name: &str) -> (r: Result<u64, Defect>)
    requires
        max >= 9,
    ensures
        r matches Err(d) ==> defect_text(d) == invalid_text(name@),
        r is Ok <==> count_of(*v, max as int) is Some,
        r matches Ok(c) ==> Some(c as int) == count_of(*v, max as int),
{
    match v {
        Node::Number(t) => {
            let n = t.as_str().unicode_len();
            if n == 0 {
                return Err(invalid(name));
            }
            let mut acc: u64 = 0;
            let mut i: usize = 0;
            while i < n
                invariant
                    n == t@.len(),
                    0 < n,
                    i <= n,
                    all_digits(t@.take(i as int)),
                    acc == decimal_value(t@.take(i as int)),
                    acc <= max,
                    max >= 9,
                    *v == Node::Number(*t),
                decreases n - i,
            {
                let c = t.as_str().get_char(i);
                assert(t@.take(i + 1).drop_last() =~= t@.take(i as int));
                if !('0' <= c && c <= '9') {
                    assert(!crate::text::is_digit(t@[i as int]));
                    assert(!all_digits(t@));
                    return Err(invalid(name));
                }
                let d = (c as u32 - '0' as u32) as u64;
                if acc > (max - d) / 10 {
                    proof {
                        let p = t@.take(i + 1);
                        assert(p.last() == c);
                        assert(decimal_value(p) == acc * 10 + d);
                        assert(acc * 10 + d > max) by (nonlinear_arith)
                            requires
                                acc > (max - d) / 10,
                                d < 10,
                                d <= max,
                        ;
                        if all_digits(t@) {
                            lemma_prefix_le(t@, i + 1);
                        }
                    }
                    return Err(invalid(name));
                }
                acc = acc * 10 + d;
                i = i + 1;
            }
            assert(t@.take(n as int) =~= t@);
            Ok(acc)
        },
        _ => Err(invalid(name)),
    }
}

proof fn lemma_prefix_le(s: Seq<char>, i: int)
    requires
        0 <= i <= s.len(),
        all_digits(s),
    ensures
        decimal_value(s.take(i)) <= decimal_value(s),
    decreases s.len() - i,
{
    if i < s.len() {
        lemma_prefix_le(s, i + 1);
        assert(s.take(i + 1).drop_last() =~= s.take(i));
        lemma_decimal_value_nonneg(s.take(i));
    } else {
        assert(s.take(i) =~= s);
    }
}

/// The optional integer field `name` (at most `max`) can be read.
pub open spec fn count_ok(es: Seq<(Node, Node)>, name: Seq<char>, max: int) -> bool {
    !repeated(es, name) && (blank(field(es, name)) || count_of(field(es, name).unwrap(), max) is Some)
}

/// The reading of the optional integer field `name`.
pub open spec fn count_at(es: Seq<(Node, Node)>, name: Seq<char>, max: int) -> Option<int> {
    if blank(field(es, name)) {
        None
    } else {
        count_of(field(es, name).unwrap(), max)
    }
}

/// An optional `u32` taken as an integer.
pub open spec fn opt_u32(o: Option<u32>) -> Option<int> {
    match o {
        Some(v) => Some(v as int),
        None => None,
    }
}

/// An optional `u16` taken as an integer.
pub open spec fn opt_u16(o: Option<u16>) -> Option<int> {
    match o {
        Some(v) => Some(v as int),
        None => None,
    }
}

/// Reads the optional `u32` field `name`.
pub fn opt_count_u32(es: &Vec<(Node, Node)>, name: &str) -> (r: Result<Option<u32>, Defect>)
    ensures
        r matches Err(d) ==> defect_text(d) == field_flaw(es@, name@),
        r is Ok <==> count_ok(es@, name@, u32::MAX as int),
        r matches Ok(c) ==> opt_u32(c) == count_at(es@, name@, u32::MAX as int),
{
    match field_of(es, name)? {
        None => Ok(None),
        Some(Node::Null) => Ok(None),
        Some(v) => {
            let c = read_count(v, 0xffff_ffff, name)?;
            Ok(Some(c as u32))
        },
    }
}

/// Reads the optional `u16` field `name`.
pub fn opt_count_u16(es: &Vec<(Node, Node)>, name: &str) -> (r: Result<Option<u16>, Defect>)
    ensures
        r matches Err(d) ==> defect_text(d) == field_flaw(es@, name@),
        r is Ok <==> count_ok(es@, name@, u16::MAX as int),
        r matches Ok(c) ==> opt_u16(c) == count_at(es@, name@, u16::MAX as int),
{
    match field_of(es, name)? {
        None => Ok(None),
        Some(Node::Null) => Ok(None),
        Some(v) => {
            let c = read_count(v, 0xffff, name)?;
            Ok(Some(c as u16))
        },
    }
}

/// The required `u32` field `name` can be read.
pub open spec fn req_count_ok(es: Seq<(Node, Node)>, name: Seq<char>) -> bool {
    !repeated(es, name) && field(es, name) is Some && count_of(field(es, name).unwrap(), u32::MAX as int) is Some
}

/// Reads the required `u32` field `name`.
pub fn req_count_u32(es: &Vec<(Node, Node)>, name: &str) -> (r: Result<u32, Defect>)
    ensures
        r matches Err(d) ==> defect_text(d) == required_flaw(es@, name@),
        r is Ok <==> req_count_ok(es@, name@),
        r matches Ok(c) ==> Some(c as int) == count_of(field(es@, name@).unwrap(), u32::MAX as int),
{
    match field_of(es, name)? {
        None => Err(missing(name)),
        Some(v) => {
            let c = read_count(v, 0xffff_ffff, name)?;
            Ok(c as u32)
        },
    }
}

/// The optional fractional field `name` can be read: it is absent, `null` or a number.
pub open spec fn decimal_ok(es: Seq<(Node, Node)>, name: Seq<char>) -> bool {
    !repeated(es, name) && (blank(field(es, name)) || field(es, name).unwrap() is Number)
}

/// The decimal text of the optional fractional field `name`.
pub open spec fn decimal_at(es: Seq<(Node, Node)>, name: Seq<char>) -> Option<Seq<char>> {
    match field(es, name) {
        Some(Node::Number(t)) => Some(t@),
        _ => None,
    }
}

/// Reads the optional fractional field `name` as its decimal text.
pub fn opt_decimal(es: &Vec<(Node, Node)>, name: &str) -> (r: Result<Option<String>, Defect>)
    ensures
        r matches Err(d) ==> defect_text(d) == field_flaw(es@, name@),
        r is Ok <==> decimal_ok(es@, name@),
        r matches Ok(t) ==> opt_view(t) == decimal_at(es@, name@),
{
    match field_of(es, name)? {
        None => Ok(None),
        Some(Node::Null) => Ok(None),
        Some(Node::Number(t)) => Ok(Some(t.clone())),
        Some(_) => Err(invalid(name)),
    }
}

// ---------------------------------------------------------------------------
// Lists, maps and free-form values
// ---------------------------------------------------------------------------

/// Every item of a sequence node reads as text.
pub open spec fn texts_ok(v: Node, strict: bool) -> bool {
    v is Sequence && forall|i: int| 0 <= i < items(v).len() ==> (#[trigger] text_of(items(v)[i], strict)) is Some
}

/// The texts of the items of a sequence node.
pub open spec fn texts_of(v: Node, strict: bool) -> Seq<Seq<char>> {
    Seq::new(items(v).len(), |i: int| text_of(items(v)[i], strict).unwrap())
}

/// A list of strings taken as texts.
pub open spec fn texts_view(v: Vec<String>) -> Seq<Seq<char>> {
    v@.map_values(|s: String| s@)
}

/// The optional list-of-text field `name` can be read.
pub open spec fn text_list_ok(es: Seq<(Node, Node)>, name: Seq<char>, strict: bool) -> bool {
    !repeated(es, name) && (blank(field(es, name)) || texts_ok(field(es, name).unwrap(), strict))
}

/// The optional list-of-text field `name` holds `x`.
pub open spec fn text_list_reads(es: Seq<(Node, Node)>, name: Seq<char>, strict: bool, x: Option<Vec<String>>) -> bool {
    if blank(field(es, name)) {
        x is None
    } else {
        x matches Some(v) && texts_view(v) == texts_of(field(es, name).unwrap(), strict)
    }
}

fn read_texts(v: &Node, strict: bool, name: &str) -> (r: Result<Vec<String>, Defect>)
    ensures
        r matches Err(d) ==> defect_text(d) == invalid_text(name@),
        r is Ok <==> texts_ok(*v, strict),
        r matches Ok(out) ==> texts_view(out) == texts_of(*v, strict),
{
    match v {
        Node::Sequence(xs) => {
            let mut out: Vec<String> = Vec::new();
            let mut i: usize = 0;
            while i < xs.len()
                invariant
                    *v == Node::Sequence(*xs),
                    i <= xs@.len(),
                    out@.len() == i,
                    forall|j: int| 0 <= j < i ==> (#[trigger] text_of(xs@[j], strict)) is Some,
                    forall|j: int| 0 <= j < i ==> Some(#[trigger] out@[j]@) == text_of(xs@[j], strict),
                decreases xs@.len() - i,
            {
                let t = read_text(&xs[i], strict, name)?;
                out.push(t);
                i = i + 1;
            }
            assert(texts_view(out) =~= texts_of(*v, strict));
            Ok(out)
        },
        _ => Err(invalid(name)),
    }
}

/// Reads the optional list-of-text field `name`.
pub fn opt_text_list(es: &Vec<(Node, Node)>, name: &str, strict: bool) -> (r: Result<Option<Vec<String>>, Defect>)
    ensures
        r matches Err(d) ==> defect_text(d) == field_flaw(es@, name@),
        r is Ok <==> text_list_ok(es@, name@, strict),
        r matches Ok(x) ==> text_list_reads(es@, name@, strict, x),
{
    match field_of(es, name)? {
        None => Ok(None),
        Some(Node::Null) => Ok(None),
        Some(v) => {
            let out = read_texts(v, strict, name)?;
            Ok(Some(out))
        },
    }
}

/// Every key and value of a mapping's entries reads as text.
pub open spec fn text_pairs_ok(es: Seq<(Node, Node)>, strict: bool) -> bool {
    forall|i: int| 0 <= i < es.len() ==> (#[trigger] text_of(es[i].0, strict)) is Some && text_of(es[i].1, strict) is Some
}

/// The map that the entries stand for, key text to value text; a later entry
/// replaces an earlier one with the same key.
pub open spec fn text_pairs_map(es: Seq<(Node, Node)>, strict: bool) -> Map<Seq<char>, Seq<char>>
    decreases es.len(),
{
    if es.len() == 0 {
        Map::empty()
    } else {
        text_pairs_map(es.drop_last(), strict).insert(
            text_of(es.last().0, strict).unwrap(),
            text_of(es.last().1, strict).unwrap(),
        )
    }
}

/// A map of strings taken as texts.
pub open spec fn text_map_view(m: KeyMap<String>) -> Map<Seq<char>, Seq<char>> {
    m@.map_values(|s: String| s@)
}

/// The optional text-to-text map field `name` can be read.
pub open spec fn text_map_ok(es: Seq<(Node, Node)>, name: Seq<char>, strict: bool) -> bool {
    !repeated(es, name) && (blank(field(es, name)) || (field(es, name).unwrap() is Mapping && text_pairs_ok(
        entries(field(es, name).unwrap()),
        strict,
    )))
}

/// The optional text-to-text map field `name` holds `x`.
pub open spec fn text_map_reads(es: Seq<(Node, Node)>, name: Seq<char>, strict: bool, x: Option<KeyMap<String>>) -> bool {
    if blank(field(es, name)) {
        x is None
    } else {
        x matches Some(m) && text_map_view(m) == text_pairs_map(entries(field(es, name).unwrap()), strict)
    }
}

fn read_text_map(v: &Node, strict: bool, name: &str) -> (r: Result<KeyMap<String>, Defect>)
    ensures
        r matches Err(d) ==> defect_text(d) == invalid_text(name@),
        r is Ok <==> (*v is Mapping && text_pairs_ok(entries(*v), strict)),
        r matches Ok(m) ==> text_map_view(m) == text_pairs_map(entries(*v), strict),
{
    match v {
        Node::Mapping(es) => {
            let mut m: KeyMap<String> = KeyMap::new();
            let mut i: usize = 0;
            while i < es.len()
                invariant
                    *v == Node::Mapping(*es),
                    i <= es@.len(),
                    text_pairs_ok(es@.take(i as int), strict),
                    text_map_view(m) == text_pairs_map(es@.take(i as int), strict),
                decreases es@.len() - i,
            {
                let k = match read_text(&es[i].0, strict, name) {
                    Ok(k) => k,
                    Err(e) => {
                        assert(text_of(es@[i as int].0, strict) is None);
                        assert(entries(*v) == es@);
                        assert(!text_pairs_ok(entries(*v), strict));
                        return Err(e);
                    },
                };
                let val = match read_text(&es[i].1, strict, name) {
                    Ok(x) => x,
                    Err(e) => {
                        assert(text_of(es@[i as int].1, strict) is None);
                        assert(entries(*v) == es@);
                        assert(!text_pairs_ok(entries(*v), strict));
                        return Err(e);
                    },
                };
                let ghost before = m@;
                let ghost kv = k@;
                let ghost vv = val;
                m.insert(k, val);
                proof {
                    let t = es@.take(i + 1);
                    assert(t.drop_last() =~= es@.take(i as int));
                    assert(text_map_view(m) =~= text_pairs_map(es@.take(i as int), strict).insert(kv, vv@));
                    assert forall|j: int| 0 <= j < t.len() implies (#[trigger] text_of(t[j].0, strict)) is Some
                        && text_of(t[j].1, strict) is Some by {
                        if j < i {
                            assert(t[j] == es@.take(i as int)[j]);
                        }
                    }
                }
                i = i + 1;
            }
            assert(es@.take(es@.len() as int) =~= es@);
            Ok(m)
        },
        _ => Err(invalid(name)),
    }
}

/// Reads the optional text-to-text map field `name`.
pub fn opt_text_map(es: &Vec<(Node, Node)>, name: &str, strict: bool) -> (r: Result<Option<KeyMap<String>>, Defect>)
    ensures
        r matches Err(d) ==> defect_text(d) == field_flaw(es@, name@),
        r is Ok <==> text_map_ok(es@, name@, strict),
        r matches Ok(x) ==> text_map_reads(es@, name@, strict, x),
{
    match field_of(es, name)? {
        None => Ok(None),
        Some(Node::Null) => Ok(None),
        Some(v) => {
            let m = read_text_map(v, strict, name)?;
            Ok(Some(m))
        },
    }
}

/// The optional free-form field `name` can be read: it is not given twice.
pub open spec fn node_ok(es: Seq<(Node, Node)>, name: Seq<char>) -> bool {
    !repeated(es, name)
}

/// The optional free-form field `name` holds `x`: nothing when absent or `null`,
/// else a copy of its value.
pub open spec fn node_reads(es: Seq<(Node, Node)>, name: Seq<char>, x: Option<Node>) -> bool {
    if blank(field(es, name)) {
        x is None
    } else {
        x matches Some(y) && copy_of(field(es, name).unwrap(), y)
    }
}

/// Reads the optional free-form field `name`.
pub fn opt_node(es: &Vec<(Node, Node)>, name: &str) -> (r: Result<Option<Node>, Defect>)
    ensures
        r matches Err(d) ==> defect_text(d) == field_flaw(es@, name@),
        r is Ok <==> node_ok(es@, name@),
        r matches Ok(x) ==> node_reads(es@, name@, x),
{
    match field_of(es, name)? {
        None => Ok(None),
        Some(Node::Null) => Ok(None),
        Some(v) => Ok(Some(v.deep_clone())),
    }
}

/// The optional list field `name` of free-form values can be read.
pub open spec fn node_list_ok(es: Seq<(Node, Node)>, name: Seq<char>) -> bool {
    !repeated(es, name) && (blank(field(es, name)) || field(es, name).unwrap() is Sequence)
}

/// The optional list field `name` holds `x`: copies of the items.
pub open spec fn node_list_reads(es: Seq<(Node, Node)>, name: Seq<char>, x: Option<Vec<Node>>) -> bool {
    if blank(field(es, name)) {
        x is None
    } else {
        x matches Some(v) && v@.len() == items(field(es, name).unwrap()).len() && forall|i: int|
            0 <= i < v@.len() ==> copy_of(#[trigger] items(field(es, name).unwrap())[i], v@[i])
    }
}

/// Reads the optional list field `name` of free-form values.
pub fn opt_node_list(es: &Vec<(Node, Node)>, name: &str) -> (r: Result<Option<Vec<Node>>, Defect>)
    ensures
        r matches Err(d) ==> defect_text(d) == field_flaw(es@, name@),
        r is Ok <==> node_list_ok(es@, name@),
        r matches Ok(x) ==> node_list_reads(es@, name@, x),
{
    match field_of(es, name)? {
        None => Ok(None),
        Some(Node::Null) => Ok(None),
        Some(Node::Sequence(xs)) => {
            let mut out: Vec<Node> = Vec::new();
            let mut i: usize = 0;
            while i < xs.len()
                invariant
                    i <= xs@.len(),
                    out@.len() == i,
                    forall|j: int| 0 <= j < i ==> copy_of(#[trigger] xs@[j], out@[j]),
                decreases xs@.len() - i,
            {
                out.push(xs[i].deep_clone());
                i = i + 1;
            }
            Ok(Some(out))
        },
        Some(_) => Err(invalid(name)),
    }
}

/// Every key of a mapping's entries reads as text.
pub open spec fn text_keys_ok(es: Seq<(Node, Node)>, strict: bool) -> bool {
    forall|i: int| 0 <= i < es.len() ==> (#[trigger] text_of(es[i].0, strict)) is Some
}

/// The map that the entries stand for, key text to value; a later entry replaces
/// an earlier one with the same key.
pub open spec fn node_pairs_map(es: Seq<(Node, Node)>, strict: bool) -> Map<Seq<char>, Node>
    decreases es.len(),
{
    if es.len() == 0 {
        Map::empty()
    } else {
        node_pairs_map(es.drop_last(), strict).insert(text_of(es.last().0, strict).unwrap(), es.last().1)
    }
}

/// `m` holds, under the same keys, copies of the values of `d`.
pub open spec fn copies_map(d: Map<Seq<char>, Node>, m: Map<Seq<char>, Node>) -> bool {
    m.dom() == d.dom() && forall|k: Seq<char>| #[trigger] d.contains_key(k) ==> copy_of(d[k], m[k])
}

/// The optional text-to-value map field `name` can be read.
pub open spec fn node_map_ok(es: Seq<(Node, Node)>, name: Seq<char>, strict: bool) -> bool {
    !repeated(es, name) && (blank(field(es, name)) || (field(es, name).unwrap() is Mapping && text_keys_ok(
        entries(field(es, name).unwrap()),
        strict,
    )))
}

/// The optional text-to-value map field `name` holds `x`.
pub open spec fn node_map_reads(es: Seq<(Node, Node)>, name: Seq<char>, strict: bool, x: Option<KeyMap<Node>>) -> bool {
    if blank(field(es, name)) {
        x is None
    } else {
        x matches Some(m) && copies_map(node_pairs_map(entries(field(es, name).unwrap()), strict), m@)
    }
}

fn read_node_map(v: &Node, strict: bool, name: &str) -> (r: Result<KeyMap<Node>, Defect>)
    ensures
        r matches Err(d) ==> defect_text(d) == invalid_text(name@),
        r is Ok <==> (*v is Mapping && text_keys_ok(entries(*v), strict)),
        r matches Ok(m) ==> copies_map(node_pairs_map(entries(*v), strict), m@),
{
    match v {
        Node::Mapping(es) => {
            let mut m: KeyMap<Node> = KeyMap::new();
            let mut i: usize = 0;
            while i < es.len()
                invariant
                    *v == Node::Mapping(*es),
                    i <= es@.len(),
                    text_keys_ok(es@.take(i as int), strict),
                    copies_map(node_pairs_map(es@.take(i as int), strict), m@),
                decreases es@.len() - i,
            {
                let k = match read_text(&es[i].0, strict, name) {
                    Ok(k) => k,
                    Err(e) => {
                        assert(text_of(es@[i as int].0, strict) is None);
                        assert(entries(*v) == es@);
                        assert(!text_keys_ok(entries(*v), strict));
                        return Err(e);
                    },
                };
                let val = es[i].1.deep_clone();
                let ghost kv = k@;
                let ghost vv = val;
                m.insert(k, val);
                proof {
                    let t = es@.take(i + 1);
                    assert(t.drop_last() =~= es@.take(i as int));
                    let d = node_pairs_map(t, strict);
                    assert(d == node_pairs_map(es@.take(i as int), strict).insert(kv, es@[i as int].1));
                    assert(m@.dom() =~= d.dom());
                    assert forall|k: Seq<char>| #[trigger] d.contains_key(k) implies copy_of(d[k], m@[k]) by {
                        if k != kv {
                            assert(node_pairs_map(es@.take(i as int), strict).contains_key(k));
                        }
                    }
                    assert forall|j: int| 0 <= j < t.len() implies (#[trigger] text_of(t[j].0, strict)) is Some by {
                        if j < i {
                            assert(t[j] == es@.take(i as int)[j]);
                        } else {
                            assert(t[j] == es@[i as int]);
                        }
                    }
                }
                i = i + 1;
            }
            assert(es@.take(es@.len() as int) =~= es@);
            Ok(m)
        },
        _ => Err(invalid(name)),
    }
}

/// Reads the optional text-to-value map field `name`.
pub fn opt_node_map(es: &Vec<(Node, Node)>, name: &str, strict: bool) -> (r: Result<Option<KeyMap<Node>>, Defect>)
    ensures
        r matches Err(d) ==> defect_text(d) == field_flaw(es@, name@),
        r is Ok <==> node_map_ok(es@, name@, strict),
        r matches Ok(x) ==> node_map_reads(es@, name@, strict, x),
{
    match field_of(es, name)? {
        None => Ok(None),
        Some(Node::Null) => Ok(None),
        Some(v) => {
            let m = read_node_map(v, strict, name)?;
            Ok(Some(m))
        },
    }
}

// ---------------------------------------------------------------------------
// Records
// ---------------------------------------------------------------------------

/// The entries of a mapping; any other value is an error for the record `name`.
pub fn mapping_entries<'a>(n: &'a Node, name: &str) -> (r: Result<&'a Vec<(Node, Node)>, Defect>)
    ensures
        r matches Err(d) ==> defect_text(d) == invalid_text(name@),
        r is Ok <==> n is Mapping,
        r matches Ok(es) ==> es@ == entries(*n) && *n == Node::Mapping(*es),
{
    match n {
        Node::Mapping(es) => Ok(es),
        _ => Err(invalid(name)),
    }
}

/// The value of a field lies inside the mapping that holds it.
pub proof fn lemma_field_decreases(n: Node, es: Vec<(Node, Node)>, name: Seq<char>)
    requires
        n == Node::Mapping(es),
        field(es@, name) is Some,
    ensures
        decreases_to!(n => field(es@, name).unwrap()),
{
    reveal(has_entry);
    reveal(field);
    let c = choose|c: int| 0 <= c < es@.len() && key_is(#[trigger] es@[c].0, name);
    let m = n->Mapping_0;
    assert(m == es);
    assert(decreases_to!(n => m));
    assert(decreases_to!(m => m@));
    assert(decreases_to!(m@ => m@[c]));
    assert(decreases_to!(m@[c] => m@[c].1));
}

/// An item lies inside the sequence that holds it.
pub proof fn lemma_item_decreases(v: Node, xs: Vec<Node>, i: int)
    requires
        v == Node::Sequence(xs),
        0 <= i < xs@.len(),
    ensures
        decreases_to!(v => xs@[i]),
{
    let m = v->Sequence_0;
    assert(m == xs);
    assert(decreases_to!(v => m));
    assert(decreases_to!(m => m@));
    assert(decreases_to!(m@ => m@[i]));
}

/// A part of the document that is read from a YAML value.
pub trait Decode: Sized {
    /// The value `n` can be read as this type (`strict`: inside an untagged choice).
    spec fn ok(n: Node, strict: bool) -> bool;

    /// `x` is the reading of `n`.
    spec fn reads(n: Node, strict: bool, x: Self) -> bool;

    /// The description of what keeps `n` from being read, when it cannot be.
    spec fn flaw(n: Node, strict: bool) -> Seq<char>;

    /// Reads `n`; it succeeds exactly when `ok` holds, with the reading that
    /// `reads` describes.
    fn decode(n: &Node, strict: bool) -> (r: Result<Self, Defect>)
        ensures
            r is Ok <==> Self::ok(*n, strict),
            r matches Err(d) ==> defect_text(d) == Self::flaw(*n, strict),
            r matches Ok(x) ==> Self::reads(*n, strict, x),
    ;
}

/// The optional record field `name` can be read.
pub open spec fn sub_ok<T: Decode>(es: Seq<(Node, Node)>, name: Seq<char>, strict: bool) -> bool {
    !repeated(es, name) && (blank(field(es, name)) || T::ok(field(es, name).unwrap(), strict))
}

/// The optional record field `name` holds `x`.
pub open spec fn sub_reads<T: Decode>(es: Seq<(Node, Node)>, name: Seq<char>, strict: bool, x: Option<T>) -> bool {
    if blank(field(es, name)) {
        x is None
    } else {
        x matches Some(y) && T::reads(field(es, name).unwrap(), strict, y)
    }
}

/// The defect of the optional record field `name` when it cannot be read.
pub open spec fn sub_flaw<T: Decode>(es: Seq<(Node, Node)>, name: Seq<char>, strict: bool) -> Seq<char> {
    if repeated(es, name) {
        duplicate_text(name)
    } else {
        T::flaw(field(es, name).unwrap(), strict)
    }
}

/// Reads the optional record field `name`.
pub fn opt_sub<T: Decode>(es: &Vec<(Node, Node)>, name: &str, strict: bool) -> (r: Result<Option<T>, Defect>)
    ensures
        r matches Err(d) ==> defect_text(d) == sub_flaw::<T>(es@, name@, strict),
        r is Ok <==> sub_ok::<T>(es@, name@, strict),
        r matches Ok(x) ==> sub_reads::<T>(es@, name@, strict, x),
{
    match field_of(es, name)? {
        None => Ok(None),
        Some(Node::Null) => Ok(None),
        Some(v) => {
            let x = T::decode(v, strict)?;
            Ok(Some(x))
        },
    }
}

/// Every item of a sequence node reads as a `T`.
pub open spec fn seq_ok<T: Decode>(v: Node, strict: bool) -> bool {
    v is Sequence && forall|i: int| 0 <= i < items(v).len() ==> T::ok(#[trigger] items(v)[i], strict)
}

/// `xs` are the readings of the items of a sequence node.
pub open spec fn seq_reads<T: Decode>(v: Node, strict: bool, xs: Seq<T>) -> bool {
    xs.len() == items(v).len() && forall|i: int| 0 <= i < xs.len() ==> T::reads(#[trigger] items(v)[i], strict, xs[i])
}

/// The position of the first item of a sequence node that does not read as a `T`.
pub open spec fn first_bad_item<T: Decode>(v: Node, strict: bool) -> int {
    choose|i: int|
        0 <= i < items(v).len() && !T::ok(#[trigger] items(v)[i], strict) && forall|j: int|
            0 <= j < i ==> T::ok(#[trigger] items(v)[j], strict)
}

/// The defect of a list of `T` named `name` that cannot be read: not a sequence,
/// else the defect of its first item that does not read.
pub open spec fn seq_flaw<T: Decode>(v: Node, strict: bool, name: Seq<char>) -> Seq<char> {
    if !(v is Sequence) {
        invalid_text(name)
    } else {
        T::flaw(items(v)[first_bad_item::<T>(v, strict)], strict)
    }
}

fn read_seq<T: Decode>(v: &Node, strict: bool, name: &str) -> (r: Result<Vec<T>, Defect>)
    ensures
        r matches Err(d) ==> defect_text(d) == seq_flaw::<T>(*v, strict, name@),
        r is Ok <==> seq_ok::<T>(*v, strict),
        r matches Ok(out) ==> seq_reads::<T>(*v, strict, out@),
{
    match v {
        Node::Sequence(xs) => {
            let mut out: Vec<T> = Vec::new();
            let mut i: usize = 0;
            while i < xs.len()
                invariant
                    *v == Node::Sequence(*xs),
                    i <= xs@.len(),
                    out@.len() == i,
                    forall|j: int| 0 <= j < i ==> T::ok(#[trigger] xs@[j], strict),
                    forall|j: int| 0 <= j < i ==> T::reads(#[trigger] xs@[j], strict, out@[j]),
                decreases xs@.len() - i,
            {
                let x = match T::decode(&xs[i], strict) {
                    Ok(x) => x,
                    Err(e) => {
                        assert(!T::ok(items(*v)[i as int], strict));
                        proof {
                            let k = first_bad_item::<T>(*v, strict);
                            assert(0 <= k < items(*v).len() && !T::ok(items(*v)[k], strict) && forall|j: int|
                                0 <= j < k ==> T::ok(#[trigger] items(*v)[j], strict));
                            if k < i {
                                assert(T::ok(xs@[k], strict));
                            }
                            if k > i {
                                assert(T::ok(items(*v)[i as int], strict));
                            }
                        }
                        return Err(e);
                    },
                };
                out.push(x);
                i = i + 1;
            }
            Ok(out)
        },
        _ => Err(invalid(name)),
    }
}

/// The optional list-of-records field `name` can be read.
pub open spec fn list_ok<T: Decode>(es: Seq<(Node, Node)>, name: Seq<char>, strict: bool) -> bool {
    !repeated(es, name) && (blank(field(es, name)) || seq_ok::<T>(field(es, name).unwrap(), strict))
}

/// The optional list-of-records field `name` holds `x`.
pub open spec fn list_reads<T: Decode>(es: Seq<(Node, Node)>, name: Seq<char>, strict: bool, x: Option<Vec<T>>) -> bool {
    if blank(field(es, name)) {
        x is None
    } else {
        x matches Some(v) && seq_reads::<T>(field(es, name).unwrap(), strict, v@)
    }
}

/// The defect of the optional list-of-records field `name` when it cannot be read.
pub open spec fn list_flaw<T: Decode>(es: Seq<(Node, Node)>, name: Seq<char>, strict: bool) -> Seq<char> {
    if repeated(es, name) {
        duplicate_text(name)
    } else {
        seq_flaw::<T>(field(es, name).unwrap(), strict, name)
    }
}

/// Reads the optional list-of-records field `name`.
pub fn opt_list<T: Decode>(es: &Vec<(Node, Node)>, name: &str, strict: bool) -> (r: Result<Option<Vec<T>>, Defect>)
    ensures
        r matches Err(d) ==> defect_text(d) == list_flaw::<T>(es@, name@, strict),
        r is Ok <==> list_ok::<T>(es@, name@, strict),
        r matches Ok(x) ==> list_reads::<T>(es@, name@, strict, x),
{
    match field_of(es, name)? {
        None => Ok(None),
        Some(Node::Null) => Ok(None),
        Some(v) => {
            let out = read_seq::<T>(v, strict, name)?;
            Ok(Some(out))
        },
    }
}

} // verus!
