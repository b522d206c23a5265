//! Widget identifiers and the configuration record that every widget carries.

use crate::error::Error;
use crate::json::{number_of, number_of_signed, JsonValue, JsonView};
use crate::strmap::StrMap;
use vstd::prelude::*;
use vstd::string::StringExecFns;

verus! {

/// Identifies one widget for as long as it exists: a 128-bit number, written
/// in documents as UUID text.
pub type WidgetId = u128;

/// The lower-case hexadecimal digit of a number below sixteen.
pub open spec fn hex_digit(value: u128) -> char {
    "0123456789abcdef"@[value as int]
}

/// The hexadecimal digit at place `k` of an identifier, counted from the
/// most significant of its thirty-two.
pub open spec fn id_digit(id: u128, k: int) -> char {
    hex_digit((id >> (((31 - k) * 4) as u128)) & 0xf)
}

/// The hyphens that stand before place `i` of the text of an identifier.
pub open spec fn hyphens_before(i: int) -> int {
    if i > 23 {
        4
    } else if i > 18 {
        3
    } else if i > 13 {
        2
    } else if i > 8 {
        1
    } else {
        0
    }
}

/// The text of an identifier, as the `uuid` crate displays it: its
/// thirty-two hexadecimal digits in lower case, the most significant
/// first, in groups of 8, 4, 4, 4 and 12 with a hyphen between each two.
pub open spec fn id_text(id: u128) -> Seq<char> {
    Seq::new(
        36,
        |i: int|
            if i == 8 || i == 13 || i == 18 || i == 23 {
                '-'
            } else {
                id_digit(id, i - hyphens_before(i))
            },
    )
}

/// The number of the identifier that the `uuid` crate reads from a text, if
/// it reads one.
pub uninterp spec fn id_parse(text: Seq<char>) -> Option<u128>;

/// `Uuid::from_u128`, then the `Display` of `Uuid`, which is the hyphenated
/// form in lower case.  `Uuid::parse_str` reads the text back as the same
/// identifier: the crate documents that it parses every format that it
/// generates.
#[verifier::external_body]
pub(crate) fn id_to_string(id: WidgetId) -> (r: String)
    ensures
        r@ == id_text(id),
        id_parse(r@) == Some(id),
{
    uuid::Uuid::from_u128(id).to_string()
}

/// `Uuid::parse_str`, then `Uuid::as_u128`.  Which texts are read is left
/// to `uuid`; the result is a function of the text.
#[verifier::external_body]
pub(crate) fn id_from_str(text: &str) -> (r: Option<WidgetId>)
    ensures
        r == id_parse(text@),
{
    uuid::Uuid::parse_str(text).ok().map(|u| u.as_u128())
}

/// The texts of a list of strings.
pub open spec fn texts(list: Seq<String>) -> Seq<Seq<char>> {
    list.map_values(|s: String| s@)
}

/// Copies a list of strings.
pub fn clone_strings(list: &Vec<String>) -> (r: Vec<String>)
    ensures
        texts(r@) == texts(list@),
{
    let mut copy: Vec<String> = Vec::new();
    let mut i: usize = 0;
    while i < list.len()
        invariant
            i <= list.len(),
            copy.len() == i,
            forall|j: int| 0 <= j < i ==> copy[j]@ == list[j]@,
        decreases list.len() - i,
    {
        copy.push(list[i].clone());
        i += 1;
    }
    assert(texts(copy@) =~= texts(list@));
    copy
}

/// What a widget is configured with: its type tag, free-form properties,
/// CSS classes and inline styles.
#[derive(Debug, PartialEq)]
pub struct WidgetConfig {
    /// Widget type identifier
    pub widget_type: String,
    /// Custom properties specific to this widget type
    pub properties: StrMap<JsonValue>,
    /// Custom CSS classes
    pub css_classes: Vec<String>,
    /// Custom inline styles
    pub inline_styles: StrMap<String>,
}

/// The mathematical content of a [`WidgetConfig`].
pub struct ConfigView {
    pub widget_type: Seq<char>,
    pub properties: Map<Seq<char>, JsonView>,
    pub css_classes: Seq<Seq<char>>,
    pub inline_styles: Map<Seq<char>, Seq<char>>,
}

impl ConfigView {
    /// The configuration with a property set.
    pub open spec fn property(self, key: Seq<char>, value: JsonView) -> ConfigView {
        ConfigView { properties: self.properties.insert(key, value), ..self }
    }

    /// The configuration with an inline style set.
    pub open spec fn style(self, property: Seq<char>, value: Seq<char>) -> ConfigView {
        ConfigView { inline_styles: self.inline_styles.insert(property, value), ..self }
    }

    /// The configuration that a fresh widget of this type starts with.
    pub open spec fn empty(widget_type: Seq<char>) -> ConfigView {
        ConfigView {
            widget_type,
            properties: Map::empty(),
            css_classes: Seq::empty(),
            inline_styles: Map::empty(),
        }
    }
}

impl View for WidgetConfig {
    type V = ConfigView;

    open spec fn view(&self) -> ConfigView {
        ConfigView {
            widget_type: self.widget_type@,
            properties: self.properties@,
            css_classes: texts(self.css_classes@),
            inline_styles: self.inline_styles@,
        }
    }
}

impl Clone for WidgetConfig {
    fn clone(&self) -> (r: Self)
        ensures
            r@ == self@,
    {
        WidgetConfig {
            widget_type: self.widget_type.clone(),
            properties: self.properties.clone(),
            css_classes: clone_strings(&self.css_classes),
            inline_styles: self.inline_styles.clone(),
        }
    }
}

impl WidgetConfig {
    /// A configuration of the given type with nothing else set.
    pub fn new(widget_type: &str) -> (r: Self)
        ensures
            r@ == ConfigView::empty(widget_type@),
    {
        let r = WidgetConfig {
            widget_type: widget_type.to_owned(),
            properties: StrMap::new(),
            css_classes: Vec::new(),
            inline_styles: StrMap::new(),
        };
        assert(texts(r.css_classes@) =~= Seq::empty());
        r
    }

    /// The same configuration with the property set; a value already under
    /// the key is replaced.
    pub fn with_property(self, key: &str, value: JsonValue) -> (r: Self)
        ensures
            r@ == self@.property(key@, value@),
    {
        let mut config = self;
        config.properties.insert(key.to_owned(), value);
        config
    }

    /// The value of a property, if it is set.
    pub fn get_property(&self, key: &str) -> (r: Option<&JsonValue>)
        ensures
            match r {
                Some(v) => self@.properties.contains_key(key@) && v@ == self@.properties[key@],
                None => !self@.properties.contains_key(key@),
            },
    {
        self.properties.get(key)
    }

    /// Sets a property in place; a value already under the key is replaced.
    pub fn set_property(&mut self, key: &str, value: JsonValue)
        ensures
            final(self)@ == old(self)@.property(key@, value@),
    {
        self.properties.insert(key.to_owned(), value);
    }

    /// The same configuration with one more CSS class at the end.
    pub fn with_class(self, class: &str) -> (r: Self)
        ensures
            r@ == (ConfigView { css_classes: self@.css_classes.push(class@), ..self@ }),
    {
        let mut config = self;
        config.css_classes.push(class.to_owned());
        assert(texts(config.css_classes@) =~= texts(self.css_classes@).push(class@));
        config
    }

    /// The same configuration with the inline style set; a value already
    /// under the property is replaced.
    pub fn with_style(self, property: &str, value: &str) -> (r: Self)
        ensures
            r@ == self@.style(property@, value@),
    {
        let mut config = self;
        config.inline_styles.insert(property.to_owned(), value.to_owned());
        config
    }
}

/// The character is a decimal digit.
pub open spec fn is_digit(c: char) -> bool {
    '0' as u32 <= c as u32 <= '9' as u32
}

/// The number that a text of decimal digits stands for.
pub open spec fn digits_value(digits: Seq<char>) -> int
    decreases digits.len(),
{
    if digits.len() == 0 {
        0
    } else {
        digits_value(digits.drop_last()) * 10 + (digits.last() as u32 - '0' as u32)
    }
}

/// The integer that a text stands for: decimal digits, at least one, and
/// nothing else but one `+` before them, or one `-` where a sign is taken.
pub open spec fn decimal(text: Seq<char>, signed: bool) -> Option<int> {
    let negative = signed && text.len() > 0 && text[0] == '-';
    let digits = if text.len() > 0 && (text[0] == '+' || negative) {
        text.skip(1)
    } else {
        text
    };
    if digits.len() > 0 && forall|i: int| 0 <= i < digits.len() ==> is_digit(#[trigger] digits[i]) {
        Some(
            if negative {
                -digits_value(digits)
            } else {
                digits_value(digits)
            },
        )
    } else {
        None
    }
}

/// The `i32` that a text stands for, where it stands for one.
pub open spec fn decimal_i32(text: Seq<char>) -> Option<i32> {
    match decimal(text, true) {
        Some(value) => if i32::MIN <= value <= i32::MAX {
            Some(value as i32)
        } else {
            None
        },
        None => None,
    }
}

/// The `i64` that a text stands for, where it stands for one.
pub open spec fn decimal_i64(text: Seq<char>) -> Option<i64> {
    match decimal(text, true) {
        Some(value) => if i64::MIN <= value <= i64::MAX {
            Some(value as i64)
        } else {
            None
        },
        None => None,
    }
}

/// The `u64` that a text stands for, where it stands for one.
pub open spec fn decimal_u64(text: Seq<char>) -> Option<u64> {
    match decimal(text, false) {
        Some(value) => if value <= u64::MAX {
            Some(value as u64)
        } else {
            None
        },
        None => None,
    }
}

/// The text without the suffix, where it ends with the suffix.
pub open spec fn without_suffix(text: Seq<char>, suffix: Seq<char>) -> Option<Seq<char>> {
    if text.len() >= suffix.len() && text.skip(text.len() - suffix.len()) == suffix {
        Some(text.take(text.len() - suffix.len()))
    } else {
        None
    }
}

/// The content of a text that may be there.
pub open spec fn text_view(text: Option<&str>) -> Option<Seq<char>> {
    match text {
        Some(text) => Some(text@),
        None => None,
    }
}

/// `str::parse::<i32>`: the integer of a text that is an optional sign
/// and decimal digits and fits the type; none for any other text.
#[verifier::external_body]
pub(crate) fn parse_i32(text: &str) -> (r: Option<i32>)
    ensures
        r == decimal_i32(text@),
{
    text.parse::<i32>().ok()
}

/// `str::parse::<i64>`: the integer of a text that is an optional sign
/// and decimal digits and fits the type; none for any other text.
#[verifier::external_body]
pub(crate) fn parse_i64(text: &str) -> (r: Option<i64>)
    ensures
        r == decimal_i64(text@),
{
    text.parse::<i64>().ok()
}

/// `str::parse::<u64>`: the integer of a text that is an optional `+` and
/// decimal digits and fits the type; none for any other text.
#[verifier::external_body]
pub(crate) fn parse_u64(text: &str) -> (r: Option<u64>)
    ensures
        r == decimal_u64(text@),
{
    text.parse::<u64>().ok()
}

/// `str::strip_suffix` with a text for pattern: the part before the
/// suffix where the text ends with it, else none.
#[verifier::external_body]
pub(crate) fn strip_suffix<'a>(text: &'a str, suffix: &str) -> (r: Option<&'a str>)
    ensures
        text_view(r) == without_suffix(text@, suffix@),
{
    text.strip_suffix(suffix)
}

/// The texts joined, with the separator between each two.
pub open spec fn joined(list: Seq<Seq<char>>, separator: Seq<char>) -> Seq<char>
    decreases list.len(),
{
    if list.len() == 0 {
        Seq::empty()
    } else if list.len() == 1 {
        list[0]
    } else {
        joined(list.drop_last(), separator) + separator + list.last()
    }
}

/// One CSS declaration.
pub open spec fn declaration(pair: (Seq<char>, Seq<char>)) -> Seq<char> {
    pair.0 + ": "@ + pair.1 + ";"@
}

/// The CSS declarations of a list of pairs.
pub open spec fn declarations(pairs: Seq<(Seq<char>, Seq<char>)>) -> Seq<Seq<char>> {
    pairs.map_values(|pair: (Seq<char>, Seq<char>)| declaration(pair))
}

/// The CSS declarations of a map of styles, in the order of its entries,
/// with a space between each two.
pub fn style_text(styles: &StrMap<String>) -> (r: String)
    ensures
        r@ == joined(declarations(styles.pairs()), " "@),
{
    let mut text = String::new();
    let count = styles.len();
    let mut i: usize = 0;
    while i < count
        invariant
            i <= count,
            count == styles.pairs().len(),
            text@ == joined(declarations(styles.pairs().take(i as int)), " "@),
        decreases count - i,
    {
        proof {
            let next = declarations(styles.pairs().take(i + 1));
            assert(next.drop_last() =~= declarations(styles.pairs().take(i as int)));
            assert(next.last() == declaration(styles.pairs()[i as int]));
            if i == 0 {
                assert(text@ =~= Seq::empty());
            }
            reveal_with_fuel(joined, 2);
        }
        if i > 0 {
            text.append(" ");
        }
        text.append(styles.key_at(i).as_str());
        text.append(": ");
        text.append(styles.value_at(i).as_str());
        text.append(";");
        proof {
            let one = declaration(styles.pairs()[i as int]);
            let before = joined(declarations(styles.pairs().take(i as int)), " "@);
            if i == 0 {
                assert(text@ =~= one);
            } else {
                assert(text@ =~= before + " "@ + one);
            }
        }
        i += 1;
    }
    proof {
        assert(styles.pairs().take(i as int) =~= styles.pairs());
    }
    text
}

/// The texts of a list with a space between each two.
pub fn class_text(classes: &Vec<String>) -> (r: String)
    ensures
        r@ == joined(texts(classes@), " "@),
{
    let mut text = String::new();
    let mut i: usize = 0;
    while i < classes.len()
        invariant
            i <= classes.len(),
            text@ == joined(texts(classes@).take(i as int), " "@),
        decreases classes.len() - i,
    {
        proof {
            let next = texts(classes@).take(i + 1);
            assert(next.drop_last() =~= texts(classes@).take(i as int));
            assert(next.last() == classes@[i as int]@);
            if i == 0 {
                assert(text@ =~= Seq::empty());
            }
            reveal_with_fuel(joined, 2);
        }
        if i > 0 {
            text.append(" ");
        }
        text.append(classes[i].as_str());
        proof {
            let before = joined(texts(classes@).take(i as int), " "@);
            if i == 0 {
                assert(text@ =~= classes@[i as int]@);
            } else {
                assert(text@ =~= before + " "@ + classes@[i as int]@);
            }
        }
        i += 1;
    }
    proof {
        assert(texts(classes@).take(i as int) =~= texts(classes@));
    }
    text
}

impl ConfigView {
    /// The text of a property that is a string, else the default.
    pub open spec fn text_or(self, key: Seq<char>, default: Seq<char>) -> Seq<char> {
        if self.properties.contains_key(key) && self.properties[key] is String {
            self.properties[key]->String_0
        } else {
            default
        }
    }

    /// The unsigned integer of a property that is one, else the default.
    pub open spec fn unsigned_or(self, key: Seq<char>, default: u64) -> u64 {
        if self.properties.contains_key(key) && self.properties[key].as_u64() is Some {
            self.properties[key].as_u64()->Some_0
        } else {
            default
        }
    }

    /// The signed integer of a property that is one, else the default.
    pub open spec fn signed_or(self, key: Seq<char>, default: i64) -> i64 {
        if self.properties.contains_key(key) && self.properties[key].as_i64() is Some {
            self.properties[key].as_i64()->Some_0
        } else {
            default
        }
    }

    /// The number of pixels of an inline style that is an integer followed
    /// by `px`, else the default.
    pub open spec fn pixels_or(self, property: Seq<char>, default: i32) -> i32 {
        if self.inline_styles.contains_key(property) {
            match without_suffix(self.inline_styles[property], "px"@) {
                Some(number) => match decimal_i32(number) {
                    Some(pixels) => pixels,
                    None => default,
                },
                None => default,
            }
        } else {
            default
        }
    }

    /// The integer that the text of a property stands for, else the
    /// default.
    pub open spec fn integer_text_or(self, key: Seq<char>, default: i32) -> i32 {
        if self.properties.contains_key(key) && self.properties[key] is String {
            match decimal_i32(self.properties[key]->String_0) {
                Some(value) => value,
                None => default,
            }
        } else {
            default
        }
    }

    /// The truth value of a property that is one, else the default.
    pub open spec fn flag_or(self, key: Seq<char>, default: bool) -> bool {
        if self.properties.contains_key(key) && self.properties[key] is Bool {
            self.properties[key]->Bool_0
        } else {
            default
        }
    }
}

impl WidgetConfig {
    /// The text of a property that is a string, else the default.
    pub fn text_or(&self, key: &str, default: &str) -> (r: String)
        ensures
            r@ == self@.text_or(key@, default@),
    {
        match self.properties.get(key) {
            Some(JsonValue::String(text)) => text.clone(),
            _ => default.to_owned(),
        }
    }

    /// The unsigned integer of a property that is one, else the default.
    pub fn unsigned_or(&self, key: &str, default: u64) -> (r: u64)
        ensures
            r == self@.unsigned_or(key@, default),
    {
        match self.properties.get(key) {
            Some(value) => match value.as_u64() {
                Some(number) => number,
                None => default,
            },
            None => default,
        }
    }

    /// The signed integer of a property that is one, else the default.
    pub fn signed_or(&self, key: &str, default: i64) -> (r: i64)
        ensures
            r == self@.signed_or(key@, default),
    {
        match self.properties.get(key) {
            Some(value) => match value.as_i64() {
                Some(number) => number,
                None => default,
            },
            None => default,
        }
    }

    /// The number of pixels of an inline style that is an integer followed
    /// by `px`, else the default.
    pub fn pixels_or(&self, property: &str, default: i32) -> (r: i32)
        ensures
            r == self@.pixels_or(property@, default),
    {
        match self.inline_styles.get(property) {
            Some(value) => match strip_suffix(value.as_str(), "px") {
                Some(number) => match parse_i32(number) {
                    Some(pixels) => pixels,
                    None => default,
                },
                None => default,
            },
            None => default,
        }
    }

    /// The integer that the text of a property stands for, else the
    /// default.
    pub fn integer_text_or(&self, key: &str, default: i32) -> (r: i32)
        ensures
            r == self@.integer_text_or(key@, default),
    {
        match self.properties.get(key) {
            Some(JsonValue::String(text)) => match parse_i32(text.as_str()) {
                Some(value) => value,
                None => default,
            },
            _ => default,
        }
    }

    /// The configuration with a property set to the unsigned integer that
    /// a text stands for; none where the text stands for no such integer.
    pub fn with_unsigned(&self, key: &str, input: &str) -> (r: Option<WidgetConfig>)
        ensures
            match decimal_u64(input@) {
                Some(value) => r is Some && r->Some_0@ == self@.property(
                    key@,
                    JsonView::Number(number_of(value)),
                ),
                None => r is None,
            },
    {
        match parse_u64(input) {
            Some(value) => Some(self.clone().with_property(key, JsonValue::unsigned(value))),
            None => None,
        }
    }

    /// The configuration with a property set to the signed integer that a
    /// text stands for; none where the text stands for no such integer.
    pub fn with_signed(&self, key: &str, input: &str) -> (r: Option<WidgetConfig>)
        ensures
            match decimal_i64(input@) {
                Some(value) => r is Some && r->Some_0@ == self@.property(
                    key@,
                    JsonView::Number(number_of_signed(value)),
                ),
                None => r is None,
            },
    {
        match parse_i64(input) {
            Some(value) => Some(self.clone().with_property(key, JsonValue::signed(value))),
            None => None,
        }
    }

    /// The configuration with an inline style set to the given number of
    /// pixels: the text as it is, followed by `px`.
    pub fn with_pixels(&self, property: &str, input: &str) -> (r: WidgetConfig)
        ensures
            r@ == self@.style(property@, input@ + "px"@),
    {
        let value = input.to_owned().concat("px");
        let mut config = self.clone();
        config.inline_styles.insert(property.to_owned(), value);
        config
    }

    /// The truth value of a property that is one, else the default.
    pub fn flag_or(&self, key: &str, default: bool) -> (r: bool)
        ensures
            r == self@.flag_or(key@, default),
    {
        match self.properties.get(key) {
            Some(JsonValue::Bool(flag)) => *flag,
            _ => default,
        }
    }

    /// The inline styles as CSS declarations, in the order of their
    /// entries, with a space between each two.
    pub fn style_text(&self) -> (r: String)
        ensures
            r@ == joined(declarations(self.inline_styles.pairs()), " "@),
    {
        style_text(&self.inline_styles)
    }

    /// The CSS classes with a space between each two.
    pub fn class_text(&self) -> (r: String)
        ensures
            r@ == joined(self@.css_classes, " "@),
    {
        class_text(&self.css_classes)
    }
}

/// What every widget type tells of itself, apart from how it is drawn.
pub trait Widget {
    /// The type tag that documents carry for widgets of this type.
    fn widget_type(&self) -> &'static str;

    /// Checks a configuration for this type.  Unless a type says otherwise,
    /// any configuration is accepted.
    fn validate_config(&self, config: &WidgetConfig) -> (r: Result<(), Error>)
        default_ensures
            r is Ok,
    {
        Ok(())
    }

    /// The configuration that a new widget of this type starts with.
    /// Unless a type says otherwise, it holds the type tag and nothing else.
    fn default_config(&self) -> (r: WidgetConfig)
        default_ensures
            exists|tag: &'static str| #[trigger]
                call_ensures(Self::widget_type, (self,), tag) && r@ == ConfigView::empty(tag@),
    {
        WidgetConfig::new(self.widget_type())
    }

    /// Whether widgets of this type take children.  Unless a type says
    /// otherwise, they take none.
    fn can_have_children(&self) -> (r: bool)
        default_ensures
            !r,
    {
        false
    }

    /// A human-readable name for this type.  Unless a type says otherwise,
    /// it is the type tag.
    fn display_name(&self) -> (r: &'static str)
        default_ensures
            call_ensures(Self::widget_type, (self,), r),
    {
        self.widget_type()
    }

    /// A description of this type.  Unless a type says otherwise, it is
    /// empty.
    fn description(&self) -> (r: &'static str)
        default_ensures
            r@ == Seq::<char>::empty(),
    {
        proof {
            reveal_strlit("");
        }
        ""
    }
}

} // verus!
