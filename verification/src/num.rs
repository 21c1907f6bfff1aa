//! The capability set a matrix element must have: an additive identity, a
//! multiplicative identity (spec-level only), addition, multiplication and
//! decimal text, together with the algebraic facts the matrix laws rest on.

use vstd::prelude::*;
use crate::text::dec_digits;
use crate::text::dec_int;
use crate::text::i64_text;
use crate::text::u64_text;

verus! {

/// A type that can be an element of a matrix.
///
/// `spec_plus` / `spec_times` give the mathematical meaning of the exec
/// operators, `add_ok` / `mul_ok` say on which operands the exec operators
/// are defined (in-range, for the fixed-width integers), `spec_text` is the
/// element's decimal rendering, and the proof members oblige every
/// implementor to the algebraic laws the matrix-level lemmas state.
pub trait Number: Copy {
    /// The additive identity.
    spec fn spec_zero() -> Self;

    /// The multiplicative identity.
    spec fn spec_one() -> Self;

    /// What `add` returns.
    spec fn spec_plus(self, other: Self) -> Self;

    /// What `mul` returns.
    spec fn spec_times(self, other: Self) -> Self;

    /// The operands on which `add` is defined.
    spec fn add_ok(self, other: Self) -> bool;

    /// The operands on which `mul` is defined.
    spec fn mul_ok(self, other: Self) -> bool;

    /// The element's decimal text.
    spec fn spec_text(self) -> Seq<char>;

    fn zero() -> (r: Self)
        ensures
            r == Self::spec_zero(),
    ;

    fn add(self, other: Self) -> (r: Self)
        requires
            self.add_ok(other),
        ensures
            r == self.spec_plus(other),
    ;

    fn mul(self, other: Self) -> (r: Self)
        requires
            self.mul_ok(other),
        ensures
            r == self.spec_times(other),
    ;

    fn to_text(self) -> (r: String)
        ensures
            r@ == self.spec_text(),
    ;

    /// Addition is commutative, and defined symmetrically.
    proof fn lemma_add_comm(a: Self, b: Self)
        ensures
            a.add_ok(b) == b.add_ok(a),
            a.spec_plus(b) == b.spec_plus(a),
    ;

    /// Addition is associative wherever both groupings are defined.
    proof fn lemma_add_assoc(a: Self, b: Self, c: Self)
        requires
            a.add_ok(b),
            a.spec_plus(b).add_ok(c),
            b.add_ok(c),
            a.add_ok(b.spec_plus(c)),
        ensures
            a.spec_plus(b).spec_plus(c) == a.spec_plus(b.spec_plus(c)),
    ;

    /// Zero is a two-sided additive identity, always defined.
    proof fn lemma_add_zero(a: Self)
        ensures
            a.add_ok(Self::spec_zero()),
            Self::spec_zero().add_ok(a),
            a.spec_plus(Self::spec_zero()) == a,
            Self::spec_zero().spec_plus(a) == a,
    ;

    /// Zero annihilates under multiplication, always defined.
    proof fn lemma_mul_zero(a: Self)
        ensures
            Self::spec_zero().mul_ok(a),
            a.mul_ok(Self::spec_zero()),
            Self::spec_zero().spec_times(a) == Self::spec_zero(),
            a.spec_times(Self::spec_zero()) == Self::spec_zero(),
    ;

    /// One is a two-sided multiplicative identity, always defined.
    proof fn lemma_mul_one(a: Self)
        ensures
            Self::spec_one().mul_ok(a),
            a.mul_ok(Self::spec_one()),
            Self::spec_one().spec_times(a) == a,
            a.spec_times(Self::spec_one()) == a,
    ;
}

impl Number for i8 {
    open spec fn spec_zero() -> i8 {
        0
    }

    open spec fn spec_one() -> i8 {
        1
    }

    open spec fn spec_plus(self, other: i8) -> i8 {
        (self + other) as i8
    }

    open spec fn spec_times(self, other: i8) -> i8 {
        (self * other) as i8
    }

    open spec fn add_ok(self, other: i8) -> bool {
        i8::MIN <= self + other <= i8::MAX
    }

    open spec fn mul_ok(self, other: i8) -> bool {
        i8::MIN <= self * other <= i8::MAX
    }

    open spec fn spec_text(self) -> Seq<char> {
        dec_int(self as int)
    }

    fn zero() -> i8 {
        0
    }

    fn add(self, other: i8) -> i8 {
        self + other
    }

    fn mul(self, other: i8) -> i8 {
        self * other
    }

    fn to_text(self) -> (r: String) {
        i64_text(self as i64)
    }

    proof fn lemma_add_comm(a: i8, b: i8) {
    }

    proof fn lemma_add_assoc(a: i8, b: i8, c: i8) {
    }

    proof fn lemma_add_zero(a: i8) {
    }

    proof fn lemma_mul_zero(a: i8) {
    }

    proof fn lemma_mul_one(a: i8) {
    }
}

impl Number for i16 {
    open spec fn spec_zero() -> i16 {
        0
    }

    open spec fn spec_one() -> i16 {
        1
    }

    open spec fn spec_plus(self, other: i16) -> i16 {
        (self + other) as i16
    }

    open spec fn spec_times(self, other: i16) -> i16 {
        (self * other) as i16
    }

    open spec fn add_ok(self, other: i16) -> bool {
        i16::MIN <= self + other <= i16::MAX
    }

    open spec fn mul_ok(self, other: i16) -> bool {
        i16::MIN <= self * other <= i16::MAX
    }

    open spec fn spec_text(self) -> Seq<char> {
        dec_int(self as int)
    }

    fn zero() -> i16 {
        0
    }

    fn add(self, other: i16) -> i16 {
        self + other
    }

    fn mul(self, other: i16) -> i16 {
        self * other
    }

    fn to_text(self) -> (r: String) {
        i64_text(self as i64)
    }

    proof fn lemma_add_comm(a: i16, b: i16) {
    }

    proof fn lemma_add_assoc(a: i16, b: i16, c: i16) {
    }

    proof fn lemma_add_zero(a: i16) {
    }

    proof fn lemma_mul_zero(a: i16) {
    }

    proof fn lemma_mul_one(a: i16) {
    }
}

impl Number for i32 {
    open spec fn spec_zero() -> i32 {
        0
    }

    open spec fn spec_one() -> i32 {
        1
    }

    open spec fn spec_plus(self, other: i32) -> i32 {
        (self + other) as i32
    }

    open spec fn spec_times(self, other: i32) -> i32 {
        (self * other) as i32
    }

    open spec fn add_ok(self, other: i32) -> bool {
        i32::MIN <= self + other <= i32::MAX
    }

    open spec fn mul_ok(self, other: i32) -> bool {
        i32::MIN <= self * other <= i32::MAX
    }

    open spec fn spec_text(self) -> Seq<char> {
        dec_int(self as int)
    }

    fn zero() -> i32 {
        0
    }

    fn add(self, other: i32) -> i32 {
        self + other
    }

    fn mul(self, other: i32) -> i32 {
        self * other
    }

    fn to_text(self) -> (r: String) {
        i64_text(self as i64)
    }

    proof fn lemma_add_comm(a: i32, b: i32) {
    }

    proof fn lemma_add_assoc(a: i32, b: i32, c: i32) {
    }

    proof fn lemma_add_zero(a: i32) {
    }

    proof fn lemma_mul_zero(a: i32) {
    }

    proof fn lemma_mul_one(a: i32) {
    }
}

impl Number for i64 {
    open spec fn spec_zero() -> i64 {
        0
    }

    open spec fn spec_one() -> i64 {
        1
    }

    open spec fn spec_plus(self, other: i64) -> i64 {
        (self + other) as i64
    }

    open spec fn spec_times(self, other: i64) -> i64 {
        (self * other) as i64
    }

    open spec fn add_ok(self, other: i64) -> bool {
        i64::MIN <= self + other <= i64::MAX
    }

    open spec fn mul_ok(self, other: i64) -> bool {
        i64::MIN <= self * other <= i64::MAX
    }

    open spec fn spec_text(self) -> Seq<char> {
        dec_int(self as int)
    }

    fn zero() -> i64 {
        0
    }

    fn add(self, other: i64) -> i64 {
        self + other
    }

    fn mul(self, other: i64) -> i64 {
        self * other
    }

    fn to_text(self) -> (r: String) {
        i64_text(self)
    }

    proof fn lemma_add_comm(a: i64, b: i64) {
    }

    proof fn lemma_add_assoc(a: i64, b: i64, c: i64) {
    }

    proof fn lemma_add_zero(a: i64) {
    }

    proof fn lemma_mul_zero(a: i64) {
    }

    proof fn lemma_mul_one(a: i64) {
    }
}

impl Number for u8 {
    open spec fn spec_zero() -> u8 {
        0
    }

    open spec fn spec_one() -> u8 {
        1
    }

    open spec fn spec_plus(self, other: u8) -> u8 {
        (self + other) as u8
    }

    open spec fn spec_times(self, other: u8) -> u8 {
        (self * other) as u8
    }

    open spec fn add_ok(self, other: u8) -> bool {
        self + other <= u8::MAX
    }

    open spec fn mul_ok(self, other: u8) -> bool {
        self * other <= u8::MAX
    }

    open spec fn spec_text(self) -> Seq<char> {
        dec_digits(self as nat)
    }

    fn zero() -> u8 {
        0
    }

    fn add(self, other: u8) -> u8 {
        self + other
    }

    fn mul(self, other: u8) -> u8 {
        self * other
    }

    fn to_text(self) -> (r: String) {
        u64_text(self as u64)
    }

    proof fn lemma_add_comm(a: u8, b: u8) {
    }

    proof fn lemma_add_assoc(a: u8, b: u8, c: u8) {
    }

    proof fn lemma_add_zero(a: u8) {
    }

    proof fn lemma_mul_zero(a: u8) {
    }

    proof fn lemma_mul_one(a: u8) {
    }
}

impl Number for u16 {
    open spec fn spec_zero() -> u16 {
        0
    }

    open spec fn spec_one() -> u16 {
        1
    }

    open spec fn spec_plus(self, other: u16) -> u16 {
        (self + other) as u16
    }

    open spec fn spec_times(self, other: u16) -> u16 {
        (self * other) as u16
    }

    open spec fn add_ok(self, other: u16) -> bool {
        self + other <= u16::MAX
    }

    open spec fn mul_ok(self, other: u16) -> bool {
        self * other <= u16::MAX
    }

    open spec fn spec_text(self) -> Seq<char> {
        dec_digits(self as nat)
    }

    fn zero() -> u16 {
        0
    }

    fn add(self, other: u16) -> u16 {
        self + other
    }

    fn mul(self, other: u16) -> u16 {
        self * other
    }

    fn to_text(self) -> (r: String) {
        u64_text(self as u64)
    }

    proof fn lemma_add_comm(a: u16, b: u16) {
    }

    proof fn lemma_add_assoc(a: u16, b: u16, c: u16) {
    }

    proof fn lemma_add_zero(a: u16) {
    }

    proof fn lemma_mul_zero(a: u16) {
    }

    proof fn lemma_mul_one(a: u16) {
    }
}

impl Number for u32 {
    open spec fn spec_zero() -> u32 {
        0
    }

    open spec fn spec_one() -> u32 {
        1
    }

    open spec fn spec_plus(self, other: u32) -> u32 {
        (self + other) as u32
    }

    open spec fn spec_times(self, other: u32) -> u32 {
        (self * other) as u32
    }

    open spec fn add_ok(self, other: u32) -> bool {
        self + other <= u32::MAX
    }

    open spec fn mul_ok(self, other: u32) -> bool {
        self * other <= u32::MAX
    }

    open spec fn spec_text(self) -> Seq<char> {
        dec_digits(self as nat)
    }

    fn zero() -> u32 {
        0
    }

    fn add(self, other: u32) -> u32 {
        self + other
    }

    fn mul(self, other: u32) -> u32 {
        self * other
    }

    fn to_text(self) -> (r: String) {
        u64_text(self as u64)
    }

    proof fn lemma_add_comm(a: u32, b: u32) {
    }

    proof fn lemma_add_assoc(a: u32, b: u32, c: u32) {
    }

    proof fn lemma_add_zero(a: u32) {
    }

    proof fn lemma_mul_zero(a: u32) {
    }

    proof fn lemma_mul_one(a: u32) {
    }
}

impl Number for u64 {
    open spec fn spec_zero() -> u64 {
        0
    }

    open spec fn spec_one() -> u64 {
        1
    }

    open spec fn spec_plus(self, other: u64) -> u64 {
        (self + other) as u64
    }

    open spec fn spec_times(self, other: u64) -> u64 {
        (self * other) as u64
    }

    open spec fn add_ok(self, other: u64) -> bool {
        self + other <= u64::MAX
    }

    open spec fn mul_ok(self, other: u64) -> bool {
        self * other <= u64::MAX
    }

    open spec fn spec_text(self) -> Seq<char> {
        dec_digits(self as nat)
    }

    fn zero() -> u64 {
        0
    }

    fn add(self, other: u64) -> u64 {
        self + other
    }

    fn mul(self, other: u64) -> u64 {
        self * other
    }

    fn to_text(self) -> (r: String) {
        u64_text(self)
    }

    proof fn lemma_add_comm(a: u64, b: u64) {
    }

    proof fn lemma_add_assoc(a: u64, b: u64, c: u64) {
    }

    proof fn lemma_add_zero(a: u64) {
    }

    proof fn lemma_mul_zero(a: u64) {
    }

    proof fn lemma_mul_one(a: u64) {
    }
}

} // verus!
