//! Values that can be read from a route and written into one.
use crate::captures::Captures;
use crate::chars::same_text;
use crate::digits::{int_text, push_signed, push_unsigned, read_integer, text_int};
use vstd::prelude::*;

verus! {

/// A route string together with a state that travels with it.
pub struct Route<T> {
    /// The route string.
    pub route: String,
    /// The state stored with the route.
    pub state: Option<T>,
}

/// Routing trait: a value that a route can be switched into, and from which a
/// route can be built.
pub trait Switch: Sized {
    /// Whether a route text reads as a value of this type.
    spec fn is_readable(text: Seq<char>) -> bool;

    /// Whether `value` is what a route text reads as.
    spec fn reads_as(text: Seq<char>, value: &Self) -> bool;

    /// The route text of the value.
    spec fn to_text(&self) -> Seq<char>;

    /// Whether the value contributes a state when a route is built from it.
    spec fn has_state(&self) -> bool;

    /// Based on a route, possibly produce an itself.
    fn switch<T>(route: Route<T>) -> (r: Option<Self>)
        ensures
            r is Some <==> Self::is_readable(route.route@),
            r matches Some(value) ==> Self::reads_as(route.route@, &value),
    {
        Self::from_route_part(route).0
    }

    /// Get self from a part of the route, and hand the state back.
    fn from_route_part<T>(part: Route<T>) -> (r: (Option<Self>, Option<T>))
        ensures
            r.0 is Some <==> Self::is_readable(part.route@),
            r.0 matches Some(value) ==> Self::reads_as(part.route@, &value),
            r.1 == part.state,
    ;

    /// Build part of a route from itself: the text of the value is appended
    /// to `route`.
    fn build_route_section<T>(self, route: &mut String) -> (r: Option<T>)
        ensures
            final(route)@ == old(route)@ + self.to_text(),
            !self.has_state() ==> r is None,
    ;

    /// Called when the key (the named capture group) can't be located. Instead
    /// of failing outright, the item that the type provides for it is given.
    fn key_not_available() -> (r: Option<Self>)
        ensures
            r == Self::missing_key_item(),
    ;

    /// The item that stands in where the key can't be located, if the type
    /// provides one.
    spec fn missing_key_item() -> Option<Self>;
}

/// Builds a route from a switch.
pub fn build_route_from_switch<T: Switch, U>(switch: T) -> (r: Route<U>)
    ensures
        r.route@ == switch.to_text(),
        !switch.has_state() ==> r.state is None,
{
    let mut buf = String::new();
    let state = switch.build_route_section(&mut buf);
    assert(Seq::<char>::empty() + switch.to_text() =~= switch.to_text());
    Route { route: buf, state }
}

/// Reads the value of one field from the captures of a match: the text that
/// was captured under `key` is read as a value, and the state comes back
/// untouched. Where nothing was captured under `key`, the value is the item
/// that the type provides for a missing key, if it provides one.
pub fn field_from_captures<S: Switch, T>(captures: &Captures, key: &str, state: Option<T>) -> (r: (
    Option<S>,
    Option<T>,
))
    ensures
        r.1 == state,
        captures@.contains_key(key@) ==> (r.0 is Some <==> S::is_readable(captures@[key@])),
        captures@.contains_key(key@) ==> (r.0 matches Some(value) ==> S::reads_as(
            captures@[key@],
            &value,
        )),
        !captures@.contains_key(key@) ==> r.0 == S::missing_key_item(),
{
    match captures.get(key) {
        Some(value) => S::from_route_part(Route { route: value.clone(), state }),
        None => (S::key_not_available(), state),
    }
}

impl Switch for String {
    open spec fn is_readable(text: Seq<char>) -> bool {
        true
    }

    open spec fn reads_as(text: Seq<char>, value: &Self) -> bool {
        value@ == text
    }

    open spec fn to_text(&self) -> Seq<char> {
        self@
    }

    open spec fn has_state(&self) -> bool {
        false
    }

    open spec fn missing_key_item() -> Option<Self> {
        None
    }

    fn from_route_part<T>(part: Route<T>) -> (r: (Option<Self>, Option<T>)) {
        (Some(part.route), part.state)
    }

    fn build_route_section<T>(self, route: &mut String) -> (r: Option<T>) {
        route.append(self.as_str());
        None
    }

    fn key_not_available() -> (r: Option<Self>) {
        None
    }
}

/// The text of a truth value: `true` or `false`.
pub open spec fn bool_text(value: bool) -> Seq<char> {
    if value {
        seq!['t', 'r', 'u', 'e']
    } else {
        seq!['f', 'a', 'l', 's', 'e']
    }
}

impl Switch for bool {
    open spec fn is_readable(text: Seq<char>) -> bool {
        text == bool_text(true) || text == bool_text(false)
    }

    open spec fn reads_as(text: Seq<char>, value: &Self) -> bool {
        text == bool_text(*value)
    }

    open spec fn to_text(&self) -> Seq<char> {
        bool_text(*self)
    }

    open spec fn has_state(&self) -> bool {
        false
    }

    open spec fn missing_key_item() -> Option<Self> {
        None
    }

    fn from_route_part<T>(part: Route<T>) -> (r: (Option<Self>, Option<T>)) {
        proof {
            reveal_strlit("true");
            reveal_strlit("false");
            assert("true"@ =~= bool_text(true));
            assert("false"@ =~= bool_text(false));
        }
        let value = if same_text(part.route.as_str(), "true") {
            Some(true)
        } else if same_text(part.route.as_str(), "false") {
            Some(false)
        } else {
            None
        };
        (value, part.state)
    }

    fn build_route_section<T>(self, route: &mut String) -> (r: Option<T>) {
        proof {
            reveal_strlit("true");
            reveal_strlit("false");
            assert("true"@ =~= bool_text(true));
            assert("false"@ =~= bool_text(false));
        }
        if self {
            route.append("true");
        } else {
            route.append("false");
        }
        None
    }

    fn key_not_available() -> (r: Option<Self>) {
        None
    }
}

impl Switch for usize {
    open spec fn is_readable(text: Seq<char>) -> bool {
        text_int(text, false) matches Some(value) && value <= usize::MAX
    }

    open spec fn reads_as(text: Seq<char>, value: &Self) -> bool {
        text_int(text, false) == Some(*value as int)
    }

    open spec fn to_text(&self) -> Seq<char> {
        int_text(*self as int)
    }

    open spec fn has_state(&self) -> bool {
        false
    }

    open spec fn missing_key_item() -> Option<Self> {
        None
    }

    fn from_route_part<T>(part: Route<T>) -> (r: (Option<Self>, Option<T>)) {
        let value = match read_integer(part.route.as_str(), false) {
            Some((_, magnitude)) if magnitude <= usize::MAX as u128 => Some(magnitude as usize),
            _ => None,
        };
        (value, part.state)
    }

    fn build_route_section<T>(self, route: &mut String) -> (r: Option<T>) {
        push_unsigned(route, self as u128);
        None
    }

    fn key_not_available() -> (r: Option<Self>) {
        None
    }
}

impl Switch for u128 {
    open spec fn is_readable(text: Seq<char>) -> bool {
        text_int(text, false) matches Some(value) && value <= u128::MAX
    }

    open spec fn reads_as(text: Seq<char>, value: &Self) -> bool {
        text_int(text, false) == Some(*value as int)
    }

    open spec fn to_text(&self) -> Seq<char> {
        int_text(*self as int)
    }

    open spec fn has_state(&self) -> bool {
        false
    }

    open spec fn missing_key_item() -> Option<Self> {
        None
    }

    fn from_route_part<T>(part: Route<T>) -> (r: (Option<Self>, Option<T>)) {
        let value = match read_integer(part.route.as_str(), false) {
            Some((_, magnitude)) if magnitude <= u128::MAX as u128 => Some(magnitude as u128),
            _ => None,
        };
        (value, part.state)
    }

    fn build_route_section<T>(self, route: &mut String) -> (r: Option<T>) {
        push_unsigned(route, self as u128);
        None
    }

    fn key_not_available() -> (r: Option<Self>) {
        None
    }
}

impl Switch for u64 {
    open spec fn is_readable(text: Seq<char>) -> bool {
        text_int(text, false) matches Some(value) && value <= u64::MAX
    }

    open spec fn reads_as(text: Seq<char>, value: &Self) -> bool {
        text_int(text, false) == Some(*value as int)
    }

    open spec fn to_text(&self) -> Seq<char> {
        int_text(*self as int)
    }

    open spec fn has_state(&self) -> bool {
        false
    }

    open spec fn missing_key_item() -> Option<Self> {
        None
    }

    fn from_route_part<T>(part: Route<T>) -> (r: (Option<Self>, Option<T>)) {
        let value = match read_integer(part.route.as_str(), false) {
            Some((_, magnitude)) if magnitude <= u64::MAX as u128 => Some(magnitude as u64),
            _ => None,
        };
        (value, part.state)
    }

    fn build_route_section<T>(self, route: &mut String) -> (r: Option<T>) {
        push_unsigned(route, self as u128);
        None
    }

    fn key_not_available() -> (r: Option<Self>) {
        None
    }
}

impl Switch for u32 {
    open spec fn is_readable(text: Seq<char>) -> bool {
        text_int(text, false) matches Some(value) && value <= u32::MAX
    }

    open spec fn reads_as(text: Seq<char>, value: &Self) -> bool {
        text_int(text, false) == Some(*value as int)
    }

    open spec fn to_text(&self) -> Seq<char> {
        int_text(*self as int)
    }

    open spec fn has_state(&self) -> bool {
        false
    }

    open spec fn missing_key_item() -> Option<Self> {
        None
    }

    fn from_route_part<T>(part: Route<T>) -> (r: (Option<Self>, Option<T>)) {
        let value = match read_integer(part.route.as_str(), false) {
            Some((_, magnitude)) if magnitude <= u32::MAX as u128 => Some(magnitude as u32),
            _ => None,
        };
        (value, part.state)
    }

    fn build_route_section<T>(self, route: &mut String) -> (r: Option<T>) {
        push_unsigned(route, self as u128);
        None
    }

    fn key_not_available() -> (r: Option<Self>) {
        None
    }
}

impl Switch for u16 {
    open spec fn is_readable(text: Seq<char>) -> bool {
        text_int(text, false) matches Some(value) && value <= u16::MAX
    }

    open spec fn reads_as(text: Seq<char>, value: &Self) -> bool {
        text_int(text, false) == Some(*value as int)
    }

    open spec fn to_text(&self) -> Seq<char> {
        int_text(*self as int)
    }

    open spec fn has_state(&self) -> bool {
        false
    }

    open spec fn missing_key_item() -> Option<Self> {
        None
    }

    fn from_route_part<T>(part: Route<T>) -> (r: (Option<Self>, Option<T>)) {
        let value = match read_integer(part.route.as_str(), false) {
            Some((_, magnitude)) if magnitude <= u16::MAX as u128 => Some(magnitude as u16),
            _ => None,
        };
        (value, part.state)
    }

    fn build_route_section<T>(self, route: &mut String) -> (r: Option<T>) {
        push_unsigned(route, self as u128);
        None
    }

    fn key_not_available() -> (r: Option<Self>) {
        None
    }
}

impl Switch for u8 {
    open spec fn is_readable(text: Seq<char>) -> bool {
        text_int(text, false) matches Some(value) && value <= u8::MAX
    }

    open spec fn reads_as(text: Seq<char>, value: &Self) -> bool {
        text_int(text, false) == Some(*value as int)
    }

    open spec fn to_text(&self) -> Seq<char> {
        int_text(*self as int)
    }

    open spec fn has_state(&self) -> bool {
        false
    }

    open spec fn missing_key_item() -> Option<Self> {
        None
    }

    fn from_route_part<T>(part: Route<T>) -> (r: (Option<Self>, Option<T>)) {
        let value = match read_integer(part.route.as_str(), false) {
            Some((_, magnitude)) if magnitude <= u8::MAX as u128 => Some(magnitude as u8),
            _ => None,
        };
        (value, part.state)
    }

    fn build_route_section<T>(self, route: &mut String) -> (r: Option<T>) {
        push_unsigned(route, self as u128);
        None
    }

    fn key_not_available() -> (r: Option<Self>) {
        None
    }
}

impl Switch for isize {
    open spec fn is_readable(text: Seq<char>) -> bool {
        text_int(text, true) matches Some(value) && isize::MIN <= value <= isize::MAX
    }

    open spec fn reads_as(text: Seq<char>, value: &Self) -> bool {
        text_int(text, true) == Some(*value as int)
    }

    open spec fn to_text(&self) -> Seq<char> {
        int_text(*self as int)
    }

    open spec fn has_state(&self) -> bool {
        false
    }

    open spec fn missing_key_item() -> Option<Self> {
        None
    }

    fn from_route_part<T>(part: Route<T>) -> (r: (Option<Self>, Option<T>)) {
        let value = match read_integer(part.route.as_str(), true) {
            Some((false, magnitude)) if magnitude <= isize::MAX as u128 => Some(magnitude as isize),
            Some((true, magnitude)) if magnitude <= isize::MAX as u128 => Some(
                -(magnitude as isize),
            ),
            Some((true, magnitude)) if magnitude == isize::MAX as u128 + 1 => Some(isize::MIN),
            _ => None,
        };
        (value, part.state)
    }

    fn build_route_section<T>(self, route: &mut String) -> (r: Option<T>) {
        push_signed(route, self as i128);
        None
    }

    fn key_not_available() -> (r: Option<Self>) {
        None
    }
}

impl Switch for i128 {
    open spec fn is_readable(text: Seq<char>) -> bool {
        text_int(text, true) matches Some(value) && i128::MIN <= value <= i128::MAX
    }

    open spec fn reads_as(text: Seq<char>, value: &Self) -> bool {
        text_int(text, true) == Some(*value as int)
    }

    open spec fn to_text(&self) -> Seq<char> {
        int_text(*self as int)
    }

    open spec fn has_state(&self) -> bool {
        false
    }

    open spec fn missing_key_item() -> Option<Self> {
        None
    }

    fn from_route_part<T>(part: Route<T>) -> (r: (Option<Self>, Option<T>)) {
        let value = match read_integer(part.route.as_str(), true) {
            Some((false, magnitude)) if magnitude <= i128::MAX as u128 => Some(magnitude as i128),
            Some((true, magnitude)) if magnitude <= i128::MAX as u128 => Some(
                -(magnitude as i128),
            ),
            Some((true, magnitude)) if magnitude == i128::MAX as u128 + 1 => Some(i128::MIN),
            _ => None,
        };
        (value, part.state)
    }

    fn build_route_section<T>(self, route: &mut String) -> (r: Option<T>) {
        push_signed(route, self as i128);
        None
    }

    fn key_not_available() -> (r: Option<Self>) {
        None
    }
}

impl Switch for i64 {
    open spec fn is_readable(text: Seq<char>) -> bool {
        text_int(text, true) matches Some(value) && i64::MIN <= value <= i64::MAX
    }

    open spec fn reads_as(text: Seq<char>, value: &Self) -> bool {
        text_int(text, true) == Some(*value as int)
    }

    open spec fn to_text(&self) -> Seq<char> {
        int_text(*self as int)
    }

    open spec fn has_state(&self) -> bool {
        false
    }

    open spec fn missing_key_item() -> Option<Self> {
        None
    }

    fn from_route_part<T>(part: Route<T>) -> (r: (Option<Self>, Option<T>)) {
        let value = match read_integer(part.route.as_str(), true) {
            Some((false, magnitude)) if magnitude <= i64::MAX as u128 => Some(magnitude as i64),
            Some((true, magnitude)) if magnitude <= i64::MAX as u128 => Some(
                -(magnitude as i64),
            ),
            Some((true, magnitude)) if magnitude == i64::MAX as u128 + 1 => Some(i64::MIN),
            _ => None,
        };
        (value, part.state)
    }

    fn build_route_section<T>(self, route: &mut String) -> (r: Option<T>) {
        push_signed(route, self as i128);
        None
    }

    fn key_not_available() -> (r: Option<Self>) {
        None
    }
}

impl Switch for i32 {
    open spec fn is_readable(text: Seq<char>) -> bool {
        text_int(text, true) matches Some(value) && i32::MIN <= value <= i32::MAX
    }

    open spec fn reads_as(text: Seq<char>, value: &Self) -> bool {
        text_int(text, true) == Some(*value as int)
    }

    open spec fn to_text(&self) -> Seq<char> {
        int_text(*self as int)
    }

    open spec fn has_state(&self) -> bool {
        false
    }

    open spec fn missing_key_item() -> Option<Self> {
        None
    }

    fn from_route_part<T>(part: Route<T>) -> (r: (Option<Self>, Option<T>)) {
        let value = match read_integer(part.route.as_str(), true) {
            Some((false, magnitude)) if magnitude <= i32::MAX as u128 => Some(magnitude as i32),
            Some((true, magnitude)) if magnitude <= i32::MAX as u128 => Some(
                -(magnitude as i32),
            ),
            Some((true, magnitude)) if magnitude == i32::MAX as u128 + 1 => Some(i32::MIN),
            _ => None,
        };
        (value, part.state)
    }

    fn build_route_section<T>(self, route: &mut String) -> (r: Option<T>) {
        push_signed(route, self as i128);
        None
    }

    fn key_not_available() -> (r: Option<Self>) {
        None
    }
}

impl Switch for i16 {
    open spec fn is_readable(text: Seq<char>) -> bool {
        text_int(text, true) matches Some(value) && i16::MIN <= value <= i16::MAX
    }

    open spec fn reads_as(text: Seq<char>, value: &Self) -> bool {
        text_int(text, true) == Some(*value as int)
    }

    open spec fn to_text(&self) -> Seq<char> {
        int_text(*self as int)
    }

    open spec fn has_state(&self) -> bool {
        false
    }

    open spec fn missing_key_item() -> Option<Self> {
        None
    }

    fn from_route_part<T>(part: Route<T>) -> (r: (Option<Self>, Option<T>)) {
        let value = match read_integer(part.route.as_str(), true) {
            Some((false, magnitude)) if magnitude <= i16::MAX as u128 => Some(magnitude as i16),
            Some((true, magnitude)) if magnitude <= i16::MAX as u128 => Some(
                -(magnitude as i16),
            ),
            Some((true, magnitude)) if magnitude == i16::MAX as u128 + 1 => Some(i16::MIN),
            _ => None,
        };
        (value, part.state)
    }

    fn build_route_section<T>(self, route: &mut String) -> (r: Option<T>) {
        push_signed(route, self as i128);
        None
    }

    fn key_not_available() -> (r: Option<Self>) {
        None
    }
}

impl Switch for i8 {
    open spec fn is_readable(text: Seq<char>) -> bool {
        text_int(text, true) matches Some(value) && i8::MIN <= value <= i8::MAX
    }

    open spec fn reads_as(text: Seq<char>, value: &Self) -> bool {
        text_int(text, true) == Some(*value as int)
    }

    open spec fn to_text(&self) -> Seq<char> {
        int_text(*self as int)
    }

    open spec fn has_state(&self) -> bool {
        false
    }

    open spec fn missing_key_item() -> Option<Self> {
        None
    }

    fn from_route_part<T>(part: Route<T>) -> (r: (Option<Self>, Option<T>)) {
        let value = match read_integer(part.route.as_str(), true) {
            Some((false, magnitude)) if magnitude <= i8::MAX as u128 => Some(magnitude as i8),
            Some((true, magnitude)) if magnitude <= i8::MAX as u128 => Some(
                -(magnitude as i8),
            ),
            Some((true, magnitude)) if magnitude == i8::MAX as u128 + 1 => Some(i8::MIN),
            _ => None,
        };
        (value, part.state)
    }

    fn build_route_section<T>(self, route: &mut String) -> (r: Option<T>) {
        push_signed(route, self as i128);
        None
    }

    fn key_not_available() -> (r: Option<Self>) {
        None
    }
}

} // verus!
