use core::cmp::Ordering;
use crate::vm::machine::VMError;
use vstd::prelude::*;
use vstd::string::StringExecFns;
use vstd::utf8::encode_utf8;

verus! {

/// A guest value as contracts see it: a string is the sequence of its
/// characters.
pub enum ValueView {
    UInt(u32),
    Bool(bool),
    String(Seq<char>),
    Null,
}

/// A guest value: an unsigned 32-bit integer, a boolean, an immutable string
/// or null.
#[derive(Debug, Eq, Ord)]
pub enum Value {
    UInt(u32),
    Bool(bool),
    String(String),
    Null,
}

impl View for Value {
    type V = ValueView;

    open spec fn view(&self) -> ValueView {
        match self {
            Value::UInt(n) => ValueView::UInt(*n),
            Value::Bool(b) => ValueView::Bool(*b),
            Value::String(s) => ValueView::String(s@),
            Value::Null => ValueView::Null,
        }
    }
}

/// The model of the result of an operation on values.
pub open spec fn result_view(r: Result<Value, VMError>) -> Result<ValueView, VMError> {
    match r {
        Ok(v) => Ok(v@),
        Err(e) => Err(e),
    }
}

/// `a + b`: the sum of two integers, if it fits, or the concatenation of two
/// strings.
pub open spec fn add_values(a: ValueView, b: ValueView) -> Result<ValueView, VMError> {
    match (a, b) {
        (ValueView::UInt(x), ValueView::UInt(y)) => if x + y <= u32::MAX {
            Ok(ValueView::UInt((x + y) as u32))
        } else {
            Err(VMError::ArithmeticOverflow)
        },
        (ValueView::String(x), ValueView::String(y)) => Ok(ValueView::String(x + y)),
        _ => Err(VMError::TypeMismatch),
    }
}

/// `a - b` on two integers, if it is not negative.
pub open spec fn sub_values(a: ValueView, b: ValueView) -> Result<ValueView, VMError> {
    match (a, b) {
        (ValueView::UInt(x), ValueView::UInt(y)) => if x >= y {
            Ok(ValueView::UInt((x - y) as u32))
        } else {
            Err(VMError::ArithmeticOverflow)
        },
        _ => Err(VMError::TypeMismatch),
    }
}

/// `a * b` on two integers, if it fits.
pub open spec fn mul_values(a: ValueView, b: ValueView) -> Result<ValueView, VMError> {
    match (a, b) {
        (ValueView::UInt(x), ValueView::UInt(y)) => if x * y <= u32::MAX {
            Ok(ValueView::UInt((x * y) as u32))
        } else {
            Err(VMError::ArithmeticOverflow)
        },
        _ => Err(VMError::TypeMismatch),
    }
}

/// `a / b` on two integers, rounded down, if `b` is not zero.
pub open spec fn div_values(a: ValueView, b: ValueView) -> Result<ValueView, VMError> {
    match (a, b) {
        (ValueView::UInt(x), ValueView::UInt(y)) => if y != 0 {
            Ok(ValueView::UInt((x / y) as u32))
        } else {
            Err(VMError::DivideByZero)
        },
        _ => Err(VMError::TypeMismatch),
    }
}

/// The negation of a boolean.
pub open spec fn not_value(a: ValueView) -> Result<ValueView, VMError> {
    match a {
        ValueView::Bool(x) => Ok(ValueView::Bool(!x)),
        _ => Err(VMError::TypeMismatch),
    }
}

/// The conjunction of two booleans.
pub open spec fn and_values(a: ValueView, b: ValueView) -> Result<ValueView, VMError> {
    match (a, b) {
        (ValueView::Bool(x), ValueView::Bool(y)) => Ok(ValueView::Bool(x && y)),
        _ => Err(VMError::TypeMismatch),
    }
}

/// The disjunction of two booleans.
pub open spec fn or_values(a: ValueView, b: ValueView) -> Result<ValueView, VMError> {
    match (a, b) {
        (ValueView::Bool(x), ValueView::Bool(y)) => Ok(ValueView::Bool(x || y)),
        _ => Err(VMError::TypeMismatch),
    }
}

/// The exclusive disjunction of two booleans.
pub open spec fn xor_values(a: ValueView, b: ValueView) -> Result<ValueView, VMError> {
    match (a, b) {
        (ValueView::Bool(x), ValueView::Bool(y)) => Ok(ValueView::Bool(x != y)),
        _ => Err(VMError::TypeMismatch),
    }
}

/// Whether `a` comes strictly before `b` in the lexicographic order of bytes.
pub open spec fn bytes_lt(a: Seq<u8>, b: Seq<u8>) -> bool
    decreases a.len(),
{
    if b.len() == 0 {
        false
    } else if a.len() == 0 {
        true
    } else if a[0] != b[0] {
        a[0] < b[0]
    } else {
        bytes_lt(a.drop_first(), b.drop_first())
    }
}

/// Whether `a` comes strictly before `b`, for two values of one variant:
/// integers by size, `false` before `true`, strings by the lexicographic
/// order of their UTF-8 bytes. Values of different variants have no order.
pub open spec fn value_lt(a: ValueView, b: ValueView) -> Result<bool, VMError> {
    match (a, b) {
        (ValueView::UInt(x), ValueView::UInt(y)) => Ok(x < y),
        (ValueView::Bool(x), ValueView::Bool(y)) => Ok(!x && y),
        (ValueView::String(x), ValueView::String(y)) => Ok(
            bytes_lt(encode_utf8(x), encode_utf8(y)),
        ),
        (ValueView::Null, ValueView::Null) => Ok(false),
        _ => Err(VMError::TypeMismatch),
    }
}

/// The place of a value's variant in the order of the variants: integers,
/// booleans, strings, null.
pub open spec fn variant_rank(v: ValueView) -> int {
    match v {
        ValueView::UInt(_) => 0,
        ValueView::Bool(_) => 1,
        ValueView::String(_) => 2,
        ValueView::Null => 3,
    }
}

/// How two values compare in the total order of values: by their variants
/// where these differ, and within a variant as `value_lt` orders them.
pub open spec fn value_order(a: ValueView, b: ValueView) -> Ordering {
    if variant_rank(a) < variant_rank(b) {
        Ordering::Less
    } else if variant_rank(a) > variant_rank(b) {
        Ordering::Greater
    } else if a == b {
        Ordering::Equal
    } else if value_lt(a, b) == Ok::<bool, VMError>(true) {
        Ordering::Less
    } else {
        Ordering::Greater
    }
}

/// The character that stands for a decimal digit.
pub open spec fn digit_char(d: nat) -> char {
    if d == 0 {
        '0'
    } else if d == 1 {
        '1'
    } else if d == 2 {
        '2'
    } else if d == 3 {
        '3'
    } else if d == 4 {
        '4'
    } else if d == 5 {
        '5'
    } else if d == 6 {
        '6'
    } else if d == 7 {
        '7'
    } else if d == 8 {
        '8'
    } else {
        '9'
    }
}

/// A number in decimal, without sign or leading zeros.
pub open spec fn decimal_digits(n: nat) -> Seq<char>
    decreases n,
{
    if n < 10 {
        seq![digit_char(n)]
    } else {
        decimal_digits(n / 10).push(digit_char(n % 10))
    }
}

/// A string as the standard library's `Debug` formatting writes it: between
/// double quotes, with the characters escaped that it escapes.
pub uninterp spec fn quoted(s: Seq<char>) -> Seq<char>;

/// The text that `Print` writes for a value: the variant's name and, in
/// round brackets, what it holds.
pub open spec fn value_text(v: ValueView) -> Seq<char> {
    match v {
        ValueView::UInt(n) => "UInt("@ + decimal_digits(n as nat) + ")"@,
        ValueView::Bool(b) => if b {
            "Bool(true)"@
        } else {
            "Bool(false)"@
        },
        ValueView::String(s) => "String("@ + quoted(s) + ")"@,
        ValueView::Null => "Null"@,
    }
}

/// The text of one decimal digit.
fn digit_text(d: u32) -> (r: &'static str)
    requires
        d < 10,
    ensures
        r@ == seq![digit_char(d as nat)],
{
    proof {
        reveal_strlit("0");
        reveal_strlit("1");
        reveal_strlit("2");
        reveal_strlit("3");
        reveal_strlit("4");
        reveal_strlit("5");
        reveal_strlit("6");
        reveal_strlit("7");
        reveal_strlit("8");
        reveal_strlit("9");
    }
    let r = if d == 0 {
        "0"
    } else if d == 1 {
        "1"
    } else if d == 2 {
        "2"
    } else if d == 3 {
        "3"
    } else if d == 4 {
        "4"
    } else if d == 5 {
        "5"
    } else if d == 6 {
        "6"
    } else if d == 7 {
        "7"
    } else if d == 8 {
        "8"
    } else {
        "9"
    };
    assert(r@ =~= seq![digit_char(d as nat)]);
    r
}

/// Writes a number in decimal, without sign or leading zeros.
fn decimal_string(n: u32) -> (r: String)
    ensures
        r@ == decimal_digits(n as nat),
    decreases n,
{
    if n < 10 {
        String::from_str(digit_text(n))
    } else {
        let mut text = decimal_string(n / 10);
        text.append(digit_text(n % 10));
        assert(text@ =~= decimal_digits(n as nat / 10).push(digit_char(n as nat % 10)));
        text
    }
}

/// Formats a string with `{:?}`, the standard library's `Debug` for `str`.
/// The contract only gives the result its name.
#[verifier::external_body]
fn quoted_string(s: &str) -> (r: String)
    ensures
        r@ == quoted(s@),
{
    format!("{:?}", s)
}

/// Skipping a common prefix does not change how two byte strings compare.
proof fn lemma_bytes_lt_skip(a: Seq<u8>, b: Seq<u8>, n: int)
    requires
        0 <= n <= a.len(),
        n <= b.len(),
        forall|j: int| 0 <= j < n ==> a[j] == b[j],
    ensures
        bytes_lt(a, b) == bytes_lt(a.skip(n), b.skip(n)),
    decreases n,
{
    if n == 0 {
        assert(a.skip(0) =~= a);
        assert(b.skip(0) =~= b);
    } else {
        assert forall|j: int| 0 <= j < n - 1 implies a.drop_first()[j] == b.drop_first()[j] by {
            assert(a[j + 1] == b[j + 1]);
        }
        lemma_bytes_lt_skip(a.drop_first(), b.drop_first(), n - 1);
        assert(a.drop_first().skip(n - 1) =~= a.skip(n));
        assert(b.drop_first().skip(n - 1) =~= b.skip(n));
    }
}

/// Of two different byte strings exactly one comes before the other, and
/// none comes before itself.
pub proof fn lemma_bytes_lt_total(a: Seq<u8>, b: Seq<u8>)
    ensures
        a == b ==> !bytes_lt(a, b),
        a != b ==> bytes_lt(a, b) != bytes_lt(b, a),
    decreases a.len(),
{
    if a.len() > 0 && b.len() > 0 && a[0] == b[0] {
        lemma_bytes_lt_total(a.drop_first(), b.drop_first());
        if a.drop_first() == b.drop_first() {
            assert(a =~= seq![a[0]] + a.drop_first());
            assert(b =~= seq![b[0]] + b.drop_first());
        }
    } else if a.len() == 0 && b.len() == 0 {
        assert(a =~= b);
    }
}

/// The order of byte strings is transitive.
pub proof fn lemma_bytes_lt_transitive(a: Seq<u8>, b: Seq<u8>, c: Seq<u8>)
    requires
        bytes_lt(a, b),
        bytes_lt(b, c),
    ensures
        bytes_lt(a, c),
    decreases a.len(),
{
    if a.len() > 0 && b.len() > 0 && c.len() > 0 && a[0] == b[0] && b[0] == c[0] {
        lemma_bytes_lt_transitive(a.drop_first(), b.drop_first(), c.drop_first());
    }
}

/// The order of values is total: two values compare as equal exactly when
/// they are equal, and one is less than the other exactly when the other is
/// greater than it.
pub proof fn lemma_value_order_total(a: ValueView, b: ValueView)
    ensures
        value_order(a, b) == Ordering::Equal <==> a == b,
        value_order(a, b) == Ordering::Less <==> value_order(b, a) == Ordering::Greater,
{
    match (a, b) {
        (ValueView::String(x), ValueView::String(y)) => {
            lemma_bytes_lt_total(encode_utf8(x), encode_utf8(y));
            vstd::utf8::encode_utf8_decode_utf8(x);
            vstd::utf8::encode_utf8_decode_utf8(y);
        },
        _ => {},
    }
}

/// The order of values is transitive.
pub proof fn lemma_value_order_transitive(a: ValueView, b: ValueView, c: ValueView)
    requires
        value_order(a, b) == Ordering::Less,
        value_order(b, c) == Ordering::Less,
    ensures
        value_order(a, c) == Ordering::Less,
{
    match (a, b, c) {
        (ValueView::String(x), ValueView::String(y), ValueView::String(z)) => {
            lemma_bytes_lt_transitive(encode_utf8(x), encode_utf8(y), encode_utf8(z));
            lemma_bytes_lt_total(encode_utf8(x), encode_utf8(z));
        },
        _ => {},
    }
}

/// Compares two strings by their UTF-8 bytes.
fn str_lt(a: &str, b: &str) -> (r: bool)
    ensures
        r == bytes_lt(encode_utf8(a@), encode_utf8(b@)),
{
    let x = a.as_bytes();
    let y = b.as_bytes();
    let mut i: usize = 0;
    while i < x.len() && i < y.len()
        invariant
            i <= x.len(),
            i <= y.len(),
            x@ == encode_utf8(a@),
            y@ == encode_utf8(b@),
            forall|j: int| 0 <= j < i ==> x@[j] == y@[j],
        decreases x.len() - i,
    {
        if x[i] != y[i] {
            proof {
                lemma_bytes_lt_skip(x@, y@, i as int);
            }
            return x[i] < y[i];
        }
        i += 1;
    }
    proof {
        lemma_bytes_lt_skip(x@, y@, i as int);
    }
    i < y.len()
}

impl Clone for Value {
    fn clone(&self) -> (r: Self)
        ensures
            r@ == self@,
    {
        match self {
            Value::UInt(n) => Value::UInt(*n),
            Value::Bool(b) => Value::Bool(*b),
            Value::String(s) => Value::String(s.clone()),
            Value::Null => Value::Null,
        }
    }
}

impl PartialEq for Value {
    fn eq(&self, other: &Self) -> (r: bool) {
        match (self, other) {
            (Value::UInt(a), Value::UInt(b)) => *a == *b,
            (Value::Bool(a), Value::Bool(b)) => *a == *b,
            (Value::String(a), Value::String(b)) => *a == *b,
            (Value::Null, Value::Null) => true,
            _ => false,
        }
    }
}

impl vstd::std_specs::cmp::PartialEqSpecImpl for Value {
    open spec fn obeys_eq_spec() -> bool {
        true
    }

    /// Two values are equal when they are of one variant and hold the same
    /// thing.
    open spec fn eq_spec(&self, other: &Self) -> bool {
        self@ == other@
    }
}

impl PartialOrd for Value {
    fn partial_cmp(&self, other: &Self) -> (r: Option<Ordering>) {
        match (self, other) {
            (Value::UInt(a), Value::UInt(b)) => {
                if *a < *b {
                    Some(Ordering::Less)
                } else if *a == *b {
                    Some(Ordering::Equal)
                } else {
                    Some(Ordering::Greater)
                }
            },
            (Value::Bool(a), Value::Bool(b)) => {
                if !*a && *b {
                    Some(Ordering::Less)
                } else if *a == *b {
                    Some(Ordering::Equal)
                } else {
                    Some(Ordering::Greater)
                }
            },
            (Value::String(a), Value::String(b)) => {
                if *a == *b {
                    Some(Ordering::Equal)
                } else if str_lt(a.as_str(), b.as_str()) {
                    Some(Ordering::Less)
                } else {
                    Some(Ordering::Greater)
                }
            },
            (Value::Null, Value::Null) => Some(Ordering::Equal),
            _ => {
                if self.rank() < other.rank() {
                    Some(Ordering::Less)
                } else {
                    Some(Ordering::Greater)
                }
            },
        }
    }
}

impl vstd::std_specs::cmp::PartialOrdSpecImpl for Value {
    open spec fn obeys_partial_cmp_spec() -> bool {
        true
    }

    /// Any two values compare, as `value_order` says.
    open spec fn partial_cmp_spec(&self, other: &Self) -> Option<Ordering> {
        Some(value_order(self@, other@))
    }
}

impl core::ops::Add for Value {
    type Output = Result<Value, VMError>;

    fn add(self, rhs: Value) -> (r: Result<Value, VMError>)
        ensures
            result_view(r) == add_values(self@, rhs@),
    {
        match (self, rhs) {
            (Value::UInt(a), Value::UInt(b)) => {
                if a <= u32::MAX - b {
                    Ok(Value::UInt(a + b))
                } else {
                    Err(VMError::ArithmeticOverflow)
                }
            },
            (Value::String(a), Value::String(b)) => Ok(Value::String(a.concat(b.as_str()))),
            _ => Err(VMError::TypeMismatch),
        }
    }
}

impl vstd::std_specs::ops::AddSpecImpl for Value {
    /// `add` is described by its own postcondition, over views.
    open spec fn obeys_add_spec() -> bool {
        false
    }

    open spec fn add_req(self, rhs: Value) -> bool {
        true
    }

    open spec fn add_spec(self, rhs: Value) -> Result<Value, VMError> {
        Err(VMError::TypeMismatch)
    }
}

impl core::ops::Sub for Value {
    type Output = Result<Value, VMError>;

    fn sub(self, rhs: Value) -> (r: Result<Value, VMError>)
        ensures
            result_view(r) == sub_values(self@, rhs@),
    {
        match (self, rhs) {
            (Value::UInt(a), Value::UInt(b)) => {
                if a >= b {
                    Ok(Value::UInt(a - b))
                } else {
                    Err(VMError::ArithmeticOverflow)
                }
            },
            _ => Err(VMError::TypeMismatch),
        }
    }
}

impl vstd::std_specs::ops::SubSpecImpl for Value {
    /// `sub` is described by its own postcondition, over views.
    open spec fn obeys_sub_spec() -> bool {
        false
    }

    open spec fn sub_req(self, rhs: Value) -> bool {
        true
    }

    open spec fn sub_spec(self, rhs: Value) -> Result<Value, VMError> {
        Err(VMError::TypeMismatch)
    }
}

impl core::ops::Mul for Value {
    type Output = Result<Value, VMError>;

    fn mul(self, rhs: Value) -> (r: Result<Value, VMError>)
        ensures
            result_view(r) == mul_values(self@, rhs@),
    {
        match (self, rhs) {
            (Value::UInt(a), Value::UInt(b)) => {
                match a.checked_mul(b) {
                    Some(c) => Ok(Value::UInt(c)),
                    None => Err(VMError::ArithmeticOverflow),
                }
            },
            _ => Err(VMError::TypeMismatch),
        }
    }
}

impl vstd::std_specs::ops::MulSpecImpl for Value {
    /// `mul` is described by its own postcondition, over views.
    open spec fn obeys_mul_spec() -> bool {
        false
    }

    open spec fn mul_req(self, rhs: Value) -> bool {
        true
    }

    open spec fn mul_spec(self, rhs: Value) -> Result<Value, VMError> {
        Err(VMError::TypeMismatch)
    }
}

impl core::ops::Div for Value {
    type Output = Result<Value, VMError>;

    fn div(self, rhs: Value) -> (r: Result<Value, VMError>)
        ensures
            result_view(r) == div_values(self@, rhs@),
    {
        match (self, rhs) {
            (Value::UInt(a), Value::UInt(b)) => {
                if b != 0 {
                    Ok(Value::UInt(a / b))
                } else {
                    Err(VMError::DivideByZero)
                }
            },
            _ => Err(VMError::TypeMismatch),
        }
    }
}

impl vstd::std_specs::ops::DivSpecImpl for Value {
    /// `div` is described by its own postcondition, over views.
    open spec fn obeys_div_spec() -> bool {
        false
    }

    open spec fn div_req(self, rhs: Value) -> bool {
        true
    }

    open spec fn div_spec(self, rhs: Value) -> Result<Value, VMError> {
        Err(VMError::TypeMismatch)
    }
}

impl core::ops::Not for Value {
    type Output = Result<Value, VMError>;

    fn not(self) -> (r: Result<Value, VMError>)
        ensures
            result_view(r) == not_value(self@),
    {
        match self {
            Value::Bool(a) => Ok(Value::Bool(!a)),
            _ => Err(VMError::TypeMismatch),
        }
    }
}

impl vstd::std_specs::ops::NotSpecImpl for Value {
    /// `not` is described by its own postcondition, over views.
    open spec fn obeys_not_spec() -> bool {
        false
    }

    open spec fn not_req(self) -> bool {
        true
    }

    open spec fn not_spec(self) -> Result<Value, VMError> {
        Err(VMError::TypeMismatch)
    }
}

impl Value {
    /// The place of this value's variant in the order of the variants.
    pub fn rank(&self) -> (r: u8)
        ensures
            r == variant_rank(self@),
    {
        match self {
            Value::UInt(_) => 0,
            Value::Bool(_) => 1,
            Value::String(_) => 2,
            Value::Null => 3,
        }
    }

    /// The conjunction of two booleans; `TypeMismatch` on anything else.
    pub fn and(self, rhs: Self) -> (r: Result<Value, VMError>)
        ensures
            result_view(r) == and_values(self@, rhs@),
    {
        match (self, rhs) {
            (Value::Bool(a), Value::Bool(b)) => Ok(Value::Bool(a && b)),
            _ => Err(VMError::TypeMismatch),
        }
    }

    /// The disjunction of two booleans; `TypeMismatch` on anything else.
    pub fn or(self, rhs: Self) -> (r: Result<Value, VMError>)
        ensures
            result_view(r) == or_values(self@, rhs@),
    {
        match (self, rhs) {
            (Value::Bool(a), Value::Bool(b)) => Ok(Value::Bool(a || b)),
            _ => Err(VMError::TypeMismatch),
        }
    }

    /// The exclusive disjunction of two booleans; `TypeMismatch` on anything
    /// else.
    pub fn xor(self, rhs: Self) -> (r: Result<Value, VMError>)
        ensures
            result_view(r) == xor_values(self@, rhs@),
    {
        match (self, rhs) {
            (Value::Bool(a), Value::Bool(b)) => Ok(Value::Bool(a != b)),
            _ => Err(VMError::TypeMismatch),
        }
    }

    /// Whether `self` comes strictly before `rhs`; `TypeMismatch` when the
    /// two are of different variants.
    pub fn less_than(&self, rhs: &Value) -> (r: Result<bool, VMError>)
        ensures
            r == value_lt(self@, rhs@),
    {
        match (self, rhs) {
            (Value::UInt(a), Value::UInt(b)) => Ok(*a < *b),
            (Value::Bool(a), Value::Bool(b)) => Ok(!*a && *b),
            (Value::String(a), Value::String(b)) => Ok(str_lt(a.as_str(), b.as_str())),
            (Value::Null, Value::Null) => Ok(false),
            _ => Err(VMError::TypeMismatch),
        }
    }

    /// The text that `Print` writes for this value.
    pub fn to_text(&self) -> (r: String)
        ensures
            r@ == value_text(self@),
    {
        match self {
            Value::UInt(n) => {
                let mut t = String::from_str("UInt(");
                t.append(decimal_string(*n).as_str());
                t.append(")");
                t
            },
            Value::Bool(b) => {
                if *b {
                    String::from_str("Bool(true)")
                } else {
                    String::from_str("Bool(false)")
                }
            },
            Value::String(s) => {
                let mut t = String::from_str("String(");
                t.append(quoted_string(s.as_str()).as_str());
                t.append(")");
                t
            },
            Value::Null => String::from_str("Null"),
        }
    }
}

} // verus!
