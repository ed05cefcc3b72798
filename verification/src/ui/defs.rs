//! What a setting is, and what a collection of settings and an error
//! notice have in common.

use vstd::prelude::*;
use vstd::string::StrSliceExecFns;
use crate::ui::reading::{
    is_digit,
    is_digit_char,
    read_decimal,
    read_integer,
    read_natural,
    spelled_decimal,
    spelled_integer,
    spelled_natural,
};
use crate::units::Decimal;

verus! {

/// A value that can be read from what was typed into a field: the
/// characters that cannot be part of such a value are left out, and what is
/// left is read.
pub trait ParseFilter: Sized {
    /// Whether `c` can be part of a value.
    spec fn keeps(c: char) -> bool;

    /// The value that a text spells, if it spells one.
    spec fn spells(text: Seq<char>) -> Option<Self>;

    /// The value that is taken where the text spells none.
    spec fn fallback() -> Self;

    fn filter(c: char) -> (kept: bool)
        ensures
            kept == Self::keeps(c),
    ;

    fn read(text: &Vec<char>) -> (value: Option<Self>)
        ensures
            value == Self::spells(text@),
    ;

    fn fallback_value() -> (value: Self)
        ensures
            value == Self::fallback(),
    ;
}

impl ParseFilter for u32 {
    open spec fn keeps(c: char) -> bool {
        is_digit(c)
    }

    open spec fn spells(text: Seq<char>) -> Option<u32> {
        match spelled_natural(text) {
            Some(v) => if v <= u32::MAX {
                Some(v as u32)
            } else {
                None
            },
            None => None,
        }
    }

    open spec fn fallback() -> u32 {
        0
    }

    fn filter(c: char) -> (kept: bool) {
        is_digit_char(c)
    }

    fn read(text: &Vec<char>) -> (value: Option<u32>) {
        match read_natural(text, 0xffff_ffff) {
            Some(v) => Some(v as u32),
            None => None,
        }
    }

    fn fallback_value() -> (value: u32) {
        0
    }
}

impl ParseFilter for u64 {
    open spec fn keeps(c: char) -> bool {
        is_digit(c)
    }

    open spec fn spells(text: Seq<char>) -> Option<u64> {
        match spelled_natural(text) {
            Some(v) => if v <= u64::MAX {
                Some(v as u64)
            } else {
                None
            },
            None => None,
        }
    }

    open spec fn fallback() -> u64 {
        0
    }

    fn filter(c: char) -> (kept: bool) {
        is_digit_char(c)
    }

    fn read(text: &Vec<char>) -> (value: Option<u64>) {
        read_natural(text, 0xffff_ffff_ffff_ffff)
    }

    fn fallback_value() -> (value: u64) {
        0
    }
}

impl ParseFilter for i32 {
    open spec fn keeps(c: char) -> bool {
        is_digit(c) || c == '-'
    }

    open spec fn spells(text: Seq<char>) -> Option<i32> {
        match spelled_integer(text) {
            Some(v) => if i32::MIN <= v <= i32::MAX {
                Some(v as i32)
            } else {
                None
            },
            None => None,
        }
    }

    open spec fn fallback() -> i32 {
        0
    }

    fn filter(c: char) -> (kept: bool) {
        is_digit_char(c) || c == '-'
    }

    fn read(text: &Vec<char>) -> (value: Option<i32>) {
        match read_integer(text, -0x8000_0000, 0x7fff_ffff) {
            Some(v) => Some(v as i32),
            None => None,
        }
    }

    fn fallback_value() -> (value: i32) {
        0
    }
}

impl ParseFilter for i64 {
    open spec fn keeps(c: char) -> bool {
        is_digit(c) || c == '-'
    }

    open spec fn spells(text: Seq<char>) -> Option<i64> {
        match spelled_integer(text) {
            Some(v) => if i64::MIN <= v <= i64::MAX {
                Some(v as i64)
            } else {
                None
            },
            None => None,
        }
    }

    open spec fn fallback() -> i64 {
        0
    }

    fn filter(c: char) -> (kept: bool) {
        is_digit_char(c) || c == '-'
    }

    fn read(text: &Vec<char>) -> (value: Option<i64>) {
        read_integer(text, i64::MIN, i64::MAX)
    }

    fn fallback_value() -> (value: i64) {
        0
    }
}

impl ParseFilter for Decimal {
    open spec fn keeps(c: char) -> bool {
        is_digit(c) || c == '-' || c == '.'
    }

    open spec fn spells(text: Seq<char>) -> Option<Decimal> {
        match spelled_decimal(text) {
            Some(v) => if i64::MIN <= v <= i64::MAX {
                Some(Decimal { micros: v as i64 })
            } else {
                None
            },
            None => None,
        }
    }

    open spec fn fallback() -> Decimal {
        Decimal { micros: 0 }
    }

    fn filter(c: char) -> (kept: bool) {
        is_digit_char(c) || c == '-' || c == '.'
    }

    fn read(text: &Vec<char>) -> (value: Option<Decimal>) {
        match read_decimal(text, i64::MIN, i64::MAX) {
            Some(micros) => Some(Decimal { micros }),
            None => None,
        }
    }

    fn fallback_value() -> (value: Decimal) {
        Decimal { micros: 0 }
    }
}

/// The text `true`.
pub open spec fn text_true() -> Seq<char> {
    seq!['t', 'r', 'u', 'e']
}

/// The text `false`.
pub open spec fn text_false() -> Seq<char> {
    seq!['f', 'a', 'l', 's', 'e']
}

impl ParseFilter for bool {
    open spec fn keeps(c: char) -> bool {
        c == '0' || c == '1'
    }

    open spec fn spells(text: Seq<char>) -> Option<bool> {
        if text == text_true() {
            Some(true)
        } else if text == text_false() {
            Some(false)
        } else {
            None
        }
    }

    open spec fn fallback() -> bool {
        false
    }

    fn filter(c: char) -> (kept: bool) {
        c == '0' || c == '1'
    }

    fn read(text: &Vec<char>) -> (value: Option<bool>) {
        if text.len() == 4 && text[0] == 't' && text[1] == 'r' && text[2] == 'u' && text[3] == 'e' {
            assert(text@ =~= text_true());
            Some(true)
        } else if text.len() == 5 && text[0] == 'f' && text[1] == 'a' && text[2] == 'l' && text[3]
            == 's' && text[4] == 'e' {
            assert(text@ =~= text_false());
            Some(false)
        } else {
            proof {
                if text@ == text_true() {
                    assert(text@.len() == 4);
                }
                if text@ == text_false() {
                    assert(text@.len() == 5);
                }
            }
            None
        }
    }

    fn fallback_value() -> (value: bool) {
        false
    }
}

/// The characters of `text` that can be part of a `T`, in their order.
pub open spec fn kept<T: ParseFilter>(text: Seq<char>) -> Seq<char>
    decreases text.len(),
{
    if text.len() == 0 {
        Seq::empty()
    } else {
        let front = kept::<T>(text.drop_last());
        if T::keeps(text.last()) {
            front.push(text.last())
        } else {
            front
        }
    }
}

/// The value that typing `text` sets: what the characters that can be part
/// of a `T` spell, and the fallback where they spell nothing.
pub open spec fn parsed<T: ParseFilter>(text: Seq<char>) -> T {
    match T::spells(kept::<T>(text)) {
        Some(value) => value,
        None => T::fallback(),
    }
}

/// One setting of the application.
pub trait AppSetting<T: ParseFilter>: Sized {
    /// The value of the setting.
    spec fn content(&self) -> T;

    fn new(value: T) -> (made: Self)
        ensures
            made.content() == value,
    ;

    /// Sets the setting to what was typed.
    fn parse(&mut self, str: String)
        ensures
            final(self).content() == parsed::<T>(str@),
    ;

    fn get_value(&self) -> (value: &T)
        ensures
            *value == self.content(),
    ;

    fn get_value_mut(&mut self) -> (value: &mut T)
        ensures
            *value == old(self).content(),
            final(self).content() == *final(value),
    ;

    fn update_value(&mut self, value: T)
        ensures
            final(self).content() == value,
    ;
}

/// A setting that holds its value and nothing else.
#[derive(Debug, Clone)]
pub struct Setting<T: ParseFilter> {
    value: T,
}

impl<T: ParseFilter> Default for Setting<T> {
    /// The setting at the value that is taken where nothing is spelled.
    fn default() -> (made: Self)
        ensures
            made.content() == T::fallback(),
    {
        Self { value: T::fallback_value() }
    }
}

impl<T: ParseFilter> AppSetting<T> for Setting<T> {
    closed spec fn content(&self) -> T {
        self.value
    }

    fn new(value: T) -> (made: Self) {
        Self { value }
    }

    fn parse(&mut self, str: String) {
        let text = str.as_str();
        let len: usize = text.unicode_len();
        let mut chars: Vec<char> = Vec::new();
        let mut i: usize = 0;
        while i < len
            invariant
                i <= len,
                len == str@.len(),
                text@ == str@,
                chars@ == kept::<T>(str@.take(i as int)),
            decreases len - i,
        {
            let c: char = text.get_char(i);
            proof {
                assert(str@.take(i + 1).drop_last() =~= str@.take(i as int));
                assert(str@.take(i + 1).last() == c);
            }
            if T::filter(c) {
                chars.push(c);
            }
            i += 1;
        }
        assert(str@.take(len as int) =~= str@);
        self.value = match T::read(&chars) {
            Some(value) => value,
            None => T::fallback_value(),
        };
    }

    fn get_value(&self) -> (value: &T) {
        &self.value
    }

    fn get_value_mut(&mut self) -> (value: &mut T) {
        &mut self.value
    }

    fn update_value(&mut self, value: T) {
        self.value = value;
    }
}

/// Whatever is typed for a switch, what is kept of it spells neither
/// `true` nor `false`: typing sets a switch to off.
pub proof fn lemma_typed_switch_is_off(text: Seq<char>)
    ensures
        parsed::<bool>(text) == false,
{
    lemma_kept_are_kept::<bool>(text);
    let left = kept::<bool>(text);
    if left == text_true() {
        assert(left[0] == 't');
    }
    if left == text_false() {
        assert(left[0] == 'f');
    }
}

/// Every character that is kept is one that can be part of the value.
pub proof fn lemma_kept_are_kept<T: ParseFilter>(text: Seq<char>)
    ensures
        forall|i: int| 0 <= i < kept::<T>(text).len() ==> T::keeps(#[trigger] kept::<T>(text)[i]),
        kept::<T>(text).len() <= text.len(),
    decreases text.len(),
{
    if text.len() > 0 {
        lemma_kept_are_kept::<T>(text.drop_last());
    }
}

/// A group of settings shown in a window of its own, which is open or not.
pub trait AppSettingCollection {
    /// Whether the window is open.
    spec fn opened(&self) -> bool;

    fn is_open(&self) -> (open: &bool)
        ensures
            *open == self.opened(),
    ;

    fn is_open_mut(&mut self) -> (open: &mut bool)
        ensures
            *open == old(self).opened(),
            final(self).opened() == *final(open),
    ;

    fn open(&mut self)
        ensures
            final(self).opened(),
    {
        *self.is_open_mut() = true;
    }
}

/// A notice of something that went wrong, to be shown until it is closed.
pub trait ProcessError {
    /// Whether there is something to show.
    spec fn raised(&self) -> bool;

    /// What is shown.
    spec fn message(&self) -> Seq<char>;

    fn is_error(&self) -> (flag: &bool)
        ensures
            *flag == self.raised(),
    ;

    fn is_error_mut(&mut self) -> (flag: &mut bool)
        ensures
            *flag == old(self).raised(),
            final(self).raised() == *final(flag),
            final(self).message() == old(self).message(),
    ;

    fn get_message(&self) -> (text: &String)
        ensures
            text@ == self.message(),
    ;

    fn get_message_mut(&mut self) -> (text: &mut String)
        ensures
            text@ == old(self).message(),
            final(self).message() == final(text)@,
            final(self).raised() == old(self).raised(),
    ;

    /// Raises the notice with `msg` as what is shown.
    fn rais(&mut self, msg: String)
        ensures
            final(self).raised(),
            final(self).message() == msg@,
    {
        *self.is_error_mut() = true;
        *self.get_message_mut() = msg;
    }

    /// Takes the notice down and clears what was shown.
    fn close(&mut self)
        ensures
            !final(self).raised(),
            final(self).message() == Seq::<char>::empty(),
    {
        *self.is_error_mut() = false;
        *self.get_message_mut() = String::new();
    }
}

} // verus!
