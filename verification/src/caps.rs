use vstd::prelude::*;

use evdev::{AttributeSet, Key, RelativeAxisType};
use std::str::FromStr;

verus! {

/// One past the largest key code the platform's code space recognizes:
/// evdev sizes its key bit set to `KEY_CNT` (`KEY_MAX + 1 = 0x300`) bits,
/// and every named key constant lies below it.
pub const KEY_CODE_LIMIT: u16 = 768;

/// One past the largest relative-axis code the platform's code space
/// recognizes: evdev sizes its axis bit set to `REL_CNT` (`REL_MAX + 1 =
/// 0x10`) bits, and every named axis constant lies below it.
pub const AXIS_CODE_LIMIT: u16 = 16;

/// The key code a platform symbolic name (such as `KEY_A`) stands for, if
/// the name is recognized; the table is fixed, so the result depends on the
/// name alone.
pub uninterp spec fn key_code_of_name(name: Seq<char>) -> Option<u16>;

/// The relative-axis code a platform symbolic name (such as `REL_X`) stands
/// for, if the name is recognized; the table is fixed, so the result depends
/// on the name alone.
pub uninterp spec fn axis_code_of_name(name: Seq<char>) -> Option<u16>;

/// Relies on evdev's `Key::from_str`: it looks the name up in the fixed
/// table of key constants, whose codes all lie below `KEY_CODE_LIMIT`.
#[verifier::external_body]
pub(crate) fn key_code_from_name(name: &str) -> (r: Option<u16>)
    ensures
        r == key_code_of_name(name@),
        r matches Some(c) ==> c < KEY_CODE_LIMIT,
{
    match Key::from_str(name) {
        Ok(key) => Some(key.0),
        Err(_) => None,
    }
}

/// Relies on evdev's `RelativeAxisType::from_str`: it looks the name up in
/// the fixed table of axis constants, whose codes all lie below
/// `AXIS_CODE_LIMIT`.
#[verifier::external_body]
pub(crate) fn axis_code_from_name(name: &str) -> (r: Option<u16>)
    ensures
        r == axis_code_of_name(name@),
        r matches Some(c) ==> c < AXIS_CODE_LIMIT,
{
    match RelativeAxisType::from_str(name) {
        Ok(axis) => Some(axis.0),
        Err(_) => None,
    }
}

/// A capability set of key codes, backed by evdev's bit set over `Key` so
/// the set handed to the virtual-device builder is the one the router
/// consulted.
#[verifier::external_body]
#[derive(Debug)]
pub struct KeySet {
    inner: AttributeSet<Key>,
}

/// The key codes a `KeySet` holds.
pub uninterp spec fn key_set_codes(s: KeySet) -> Set<u16>;

impl KeySet {
    /// Relies on evdev's `AttributeSet::<Key>::new`: a bit set with no bit set.
    #[verifier::external_body]
    pub(crate) fn new() -> (r: KeySet)
        ensures
            key_set_codes(r) == Set::<u16>::empty(),
    {
        KeySet { inner: AttributeSet::new() }
    }

    /// Relies on evdev's `AttributeSetRef::insert`: it sets the bit at the
    /// code's index; the bit array holds `KEY_CODE_LIMIT` bits, so larger
    /// codes are out of bounds.
    #[verifier::external_body]
    pub(crate) fn insert(&mut self, code: u16)
        requires
            code < KEY_CODE_LIMIT,
        ensures
            key_set_codes(*final(self)) == key_set_codes(*old(self)).insert(code),
    {
        self.inner.insert(Key(code));
    }

    /// Relies on evdev's `AttributeSetRef::contains`: whether the bit at the
    /// code's index is set; an out-of-range code reads as absent.
    #[verifier::external_body]
    pub(crate) fn contains(&self, code: u16) -> (r: bool)
        ensures
            r == key_set_codes(*self).contains(code),
    {
        self.inner.contains(Key(code))
    }

    /// Relies on evdev's `AttributeSetRef::iter`: it yields each set bit
    /// exactly once, as a `Key`.
    #[verifier::external_body]
    pub fn to_codes(&self) -> (r: Vec<u16>)
        ensures
            r@.to_set() == key_set_codes(*self),
            r@.no_duplicates(),
    {
        self.inner.iter().map(|key| key.0).collect()
    }
}

/// A capability set of relative-axis codes, backed by evdev's bit set over
/// `RelativeAxisType`.
#[verifier::external_body]
#[derive(Debug)]
pub struct AxisSet {
    inner: AttributeSet<RelativeAxisType>,
}

/// The axis codes an `AxisSet` holds.
pub uninterp spec fn axis_set_codes(s: AxisSet) -> Set<u16>;

impl AxisSet {
    /// Relies on evdev's `AttributeSet::<RelativeAxisType>::new`: a bit set
    /// with no bit set.
    #[verifier::external_body]
    pub(crate) fn new() -> (r: AxisSet)
        ensures
            axis_set_codes(r) == Set::<u16>::empty(),
    {
        AxisSet { inner: AttributeSet::new() }
    }

    /// Relies on evdev's `AttributeSetRef::insert`: it sets the bit at the
    /// code's index; the bit array holds `AXIS_CODE_LIMIT` bits, so larger
    /// codes are out of bounds.
    #[verifier::external_body]
    pub(crate) fn insert(&mut self, code: u16)
        requires
            code < AXIS_CODE_LIMIT,
        ensures
            axis_set_codes(*final(self)) == axis_set_codes(*old(self)).insert(code),
    {
        self.inner.insert(RelativeAxisType(code));
    }

    /// Relies on evdev's `AttributeSetRef::contains`: whether the bit at the
    /// code's index is set; an out-of-range code reads as absent.
    #[verifier::external_body]
    pub(crate) fn contains(&self, code: u16) -> (r: bool)
        ensures
            r == axis_set_codes(*self).contains(code),
    {
        self.inner.contains(RelativeAxisType(code))
    }

    /// Relies on evdev's `AttributeSetRef::iter`: it yields each set bit
    /// exactly once, as a `RelativeAxisType`.
    #[verifier::external_body]
    pub fn to_codes(&self) -> (r: Vec<u16>)
        ensures
            r@.to_set() == axis_set_codes(*self),
            r@.no_duplicates(),
    {
        self.inner.iter().map(|axis| axis.0).collect()
    }
}

} // verus!
