use vstd::prelude::*;

verus! {

/// An inline format that a span of text can carry.
#[derive(PartialEq, Eq, Structural, Debug, Clone, Copy)]
pub enum InlineFormatType {
    Bold,
    Italic,
    StrikeThrough,
    Underline,
    InlineCode,
}

/// An action of the composer's toolbar.
#[derive(PartialEq, Eq, Structural, Debug, Clone, Copy, Hash)]
pub enum ComposerAction {
    Bold,
    Italic,
    StrikeThrough,
    Underline,
    InlineCode,
    Link,
    Undo,
    Redo,
    OrderedList,
    UnorderedList,
    Indent,
    Unindent,
    CodeBlock,
    Quote,
}

/// The state of a toolbar action: usable, usable and undoing its effect, or
/// not usable.
#[derive(PartialEq, Eq, Structural, Debug, Clone, Copy)]
pub enum ActionState {
    Enabled,
    Reversed,
    Disabled,
}

/// The canonical tag of each format, as characters.
pub open spec fn tag_chars(f: InlineFormatType) -> Seq<char> {
    match f {
        InlineFormatType::Bold => seq!['s', 't', 'r', 'o', 'n', 'g'],
        InlineFormatType::Italic => seq!['e', 'm'],
        InlineFormatType::StrikeThrough => seq!['d', 'e', 'l'],
        InlineFormatType::Underline => seq!['u'],
        InlineFormatType::InlineCode => seq!['c', 'o', 'd', 'e'],
    }
}

/// The canonical tag of each format, as UTF-16 code units.
pub open spec fn tag_units_of(f: InlineFormatType) -> Seq<u16> {
    match f {
        InlineFormatType::Bold => seq![0x73u16, 0x74, 0x72, 0x6F, 0x6E, 0x67],
        InlineFormatType::Italic => seq![0x65u16, 0x6D],
        InlineFormatType::StrikeThrough => seq![0x64u16, 0x65, 0x6C],
        InlineFormatType::Underline => seq![0x75u16],
        InlineFormatType::InlineCode => seq![0x63u16, 0x6F, 0x64, 0x65],
    }
}

/// The format that a tag names: `b` or `strong`, `i` or `em`, `del`, `u`,
/// `code`.
pub open spec fn format_of_tag(t: Seq<char>) -> Option<InlineFormatType> {
    if t == seq!['b'] || t == seq!['s', 't', 'r', 'o', 'n', 'g'] {
        Some(InlineFormatType::Bold)
    } else if t == seq!['i'] || t == seq!['e', 'm'] {
        Some(InlineFormatType::Italic)
    } else if t == seq!['d', 'e', 'l'] {
        Some(InlineFormatType::StrikeThrough)
    } else if t == seq!['u'] {
        Some(InlineFormatType::Underline)
    } else if t == seq!['c', 'o', 'd', 'e'] {
        Some(InlineFormatType::InlineCode)
    } else {
        None
    }
}

pub open spec fn action_of(f: InlineFormatType) -> ComposerAction {
    match f {
        InlineFormatType::Bold => ComposerAction::Bold,
        InlineFormatType::Italic => ComposerAction::Italic,
        InlineFormatType::StrikeThrough => ComposerAction::StrikeThrough,
        InlineFormatType::Underline => ComposerAction::Underline,
        InlineFormatType::InlineCode => ComposerAction::InlineCode,
    }
}

/// The inline formats that a unit of text carries, each with its nesting
/// level (a lower level lies outside a higher one), and the link it belongs
/// to, by its index in the document's table of link targets.
#[derive(PartialEq, Eq, Structural, Debug, Clone, Copy)]
pub struct Formats {
    pub bold: Option<u8>,
    pub italic: Option<u8>,
    pub strike_through: Option<u8>,
    pub underline: Option<u8>,
    pub inline_code: Option<u8>,
    pub link: Option<usize>,
}

pub open spec fn plain_formats() -> Formats {
    Formats {
        bold: None,
        italic: None,
        strike_through: None,
        underline: None,
        inline_code: None,
        link: None,
    }
}

/// The nesting level of the format `f`, if the unit carries it.
pub open spec fn level_of(fs: Formats, f: InlineFormatType) -> Option<u8> {
    match f {
        InlineFormatType::Bold => fs.bold,
        InlineFormatType::Italic => fs.italic,
        InlineFormatType::StrikeThrough => fs.strike_through,
        InlineFormatType::Underline => fs.underline,
        InlineFormatType::InlineCode => fs.inline_code,
    }
}

pub open spec fn has_format(fs: Formats, f: InlineFormatType) -> bool {
    level_of(fs, f) is Some
}

pub open spec fn level_or_none(o: Option<u8>) -> int {
    match o {
        Some(l) => l as int,
        None => -1,
    }
}

pub open spec fn max_int2(a: int, b: int) -> int {
    if a >= b {
        a
    } else {
        b
    }
}

/// The deepest level among the formats, or -1 for none.
pub open spec fn max_level(fs: Formats) -> int {
    max_int2(
        max_int2(
            max_int2(
                max_int2(level_or_none(fs.bold), level_or_none(fs.italic)),
                level_or_none(fs.strike_through),
            ),
            level_or_none(fs.underline),
        ),
        level_or_none(fs.inline_code),
    )
}

/// The level of a format put inside all the others (as deep as levels go).
pub open spec fn next_level(fs: Formats) -> u8 {
    if max_level(fs) < 255 {
        (max_level(fs) + 1) as u8
    } else {
        255
    }
}

/// `fs` with the format `f` at `level`, or without it.
pub open spec fn with_format(fs: Formats, f: InlineFormatType, level: Option<u8>) -> Formats {
    match f {
        InlineFormatType::Bold => Formats { bold: level, ..fs },
        InlineFormatType::Italic => Formats { italic: level, ..fs },
        InlineFormatType::StrikeThrough => Formats { strike_through: level, ..fs },
        InlineFormatType::Underline => Formats { underline: level, ..fs },
        InlineFormatType::InlineCode => Formats { inline_code: level, ..fs },
    }
}

/// `fs` with the format `f` added inside the others, unless it holds already.
pub open spec fn extended(fs: Formats, f: InlineFormatType) -> Formats {
    if has_format(fs, f) {
        fs
    } else {
        with_format(fs, f, Some(next_level(fs)))
    }
}

/// `fs` with the format `f` flipped: taken away, or added inside the others.
pub open spec fn toggled(fs: Formats, f: InlineFormatType) -> Formats {
    if has_format(fs, f) {
        with_format(fs, f, None)
    } else {
        with_format(fs, f, Some(next_level(fs)))
    }
}

pub open spec fn toggled_if(fs: Formats, b: bool, f: InlineFormatType) -> Formats {
    if b {
        toggled(fs, f)
    } else {
        fs
    }
}

/// `fs` with each inline format that `t` holds flipped, in the order bold,
/// italic, strike-through, underline, inline code; the link stays.
pub open spec fn flipped_by(fs: Formats, t: Formats) -> Formats {
    toggled_if(
        toggled_if(
            toggled_if(
                toggled_if(
                    toggled_if(fs, t.bold is Some, InlineFormatType::Bold),
                    t.italic is Some,
                    InlineFormatType::Italic,
                ),
                t.strike_through is Some,
                InlineFormatType::StrikeThrough,
            ),
            t.underline is Some,
            InlineFormatType::Underline,
        ),
        t.inline_code is Some,
        InlineFormatType::InlineCode,
    )
}

proof fn lemma_toggled_has(fs: Formats, g: InlineFormatType, f: InlineFormatType)
    ensures
        has_format(toggled(fs, g), f) == if g == f {
            !has_format(fs, f)
        } else {
            has_format(fs, f)
        },
{
}

/// Flipping by the toggles `t` changes whether a format holds exactly where
/// `t` holds it.
pub proof fn lemma_flipped_has(fs: Formats, t: Formats, f: InlineFormatType)
    ensures
        has_format(flipped_by(fs, t), f) == (has_format(fs, f) != has_format(t, f)),
{
    let f1 = toggled_if(fs, t.bold is Some, InlineFormatType::Bold);
    let f2 = toggled_if(f1, t.italic is Some, InlineFormatType::Italic);
    let f3 = toggled_if(f2, t.strike_through is Some, InlineFormatType::StrikeThrough);
    let f4 = toggled_if(f3, t.underline is Some, InlineFormatType::Underline);
    lemma_toggled_has(fs, InlineFormatType::Bold, f);
    lemma_toggled_has(f1, InlineFormatType::Italic, f);
    lemma_toggled_has(f2, InlineFormatType::StrikeThrough, f);
    lemma_toggled_has(f3, InlineFormatType::Underline, f);
    lemma_toggled_has(f4, InlineFormatType::InlineCode, f);
}

fn level_or_none_exec(o: Option<u8>) -> (r: i32)
    ensures
        r == level_or_none(o),
{
    match o {
        Some(l) => l as i32,
        None => -1,
    }
}

fn max_i32(a: i32, b: i32) -> (r: i32)
    ensures
        r == max_int2(a as int, b as int),
{
    if a >= b {
        a
    } else {
        b
    }
}

impl Formats {
    /// No format at all.
    pub fn plain() -> (r: Formats)
        ensures
            r == plain_formats(),
    {
        Formats {
            bold: None,
            italic: None,
            strike_through: None,
            underline: None,
            inline_code: None,
            link: None,
        }
    }

    pub fn level(&self, f: InlineFormatType) -> (r: Option<u8>)
        ensures
            r == level_of(*self, f),
    {
        match f {
            InlineFormatType::Bold => self.bold,
            InlineFormatType::Italic => self.italic,
            InlineFormatType::StrikeThrough => self.strike_through,
            InlineFormatType::Underline => self.underline,
            InlineFormatType::InlineCode => self.inline_code,
        }
    }

    pub fn has(&self, f: InlineFormatType) -> (r: bool)
        ensures
            r == has_format(*self, f),
    {
        self.level(f).is_some()
    }

    pub fn with(&self, f: InlineFormatType, level: Option<u8>) -> (r: Formats)
        ensures
            r == with_format(*self, f, level),
    {
        let mut r = *self;
        match f {
            InlineFormatType::Bold => r.bold = level,
            InlineFormatType::Italic => r.italic = level,
            InlineFormatType::StrikeThrough => r.strike_through = level,
            InlineFormatType::Underline => r.underline = level,
            InlineFormatType::InlineCode => r.inline_code = level,
        }
        r
    }

    /// The level of a format put inside all the others.
    pub fn next_level(&self) -> (r: u8)
        ensures
            r == next_level(*self),
    {
        let m = max_i32(
            max_i32(
                max_i32(
                    max_i32(level_or_none_exec(self.bold), level_or_none_exec(self.italic)),
                    level_or_none_exec(self.strike_through),
                ),
                level_or_none_exec(self.underline),
            ),
            level_or_none_exec(self.inline_code),
        );
        if m < 255 {
            (m + 1) as u8
        } else {
            255
        }
    }

    /// These formats with `f` added inside the others, unless it holds.
    pub fn extended(&self, f: InlineFormatType) -> (r: Formats)
        ensures
            r == extended(*self, f),
    {
        if self.has(f) {
            *self
        } else {
            self.with(f, Some(self.next_level()))
        }
    }

    /// These formats with `f` flipped.
    pub fn toggled(&self, f: InlineFormatType) -> (r: Formats)
        ensures
            r == toggled(*self, f),
    {
        if self.has(f) {
            self.with(f, None)
        } else {
            self.with(f, Some(self.next_level()))
        }
    }

    pub fn flipped_by(&self, t: &Formats) -> (r: Formats)
        ensures
            r == flipped_by(*self, *t),
    {
        let mut r = *self;
        if t.bold.is_some() {
            r = r.toggled(InlineFormatType::Bold);
        }
        if t.italic.is_some() {
            r = r.toggled(InlineFormatType::Italic);
        }
        if t.strike_through.is_some() {
            r = r.toggled(InlineFormatType::StrikeThrough);
        }
        if t.underline.is_some() {
            r = r.toggled(InlineFormatType::Underline);
        }
        if t.inline_code.is_some() {
            r = r.toggled(InlineFormatType::InlineCode);
        }
        r
    }
}

fn chars_equal(a: &str, b: &str) -> (r: bool)
    ensures
        r == (a@ == b@),
{
    let n = a.unicode_len();
    if n != b.unicode_len() {
        return false;
    }
    let mut i: usize = 0;
    while i < n
        invariant
            n == a@.len() == b@.len(),
            i <= n,
            forall|k: int| 0 <= k < i ==> a@[k] == b@[k],
        decreases n - i,
    {
        if a.get_char(i) != b.get_char(i) {
            return false;
        }
        i = i + 1;
    }
    assert(a@ =~= b@);
    true
}

impl InlineFormatType {
    /// The tag that the composer writes for this format.
    pub fn tag(&self) -> (r: &'static str)
        ensures
            r@ == tag_chars(*self),
    {
        proof {
            reveal_strlit("strong");
            reveal_strlit("em");
            reveal_strlit("del");
            reveal_strlit("u");
            reveal_strlit("code");
        }
        match self {
            InlineFormatType::Bold => "strong",
            InlineFormatType::Italic => "em",
            InlineFormatType::StrikeThrough => "del",
            InlineFormatType::Underline => "u",
            InlineFormatType::InlineCode => "code",
        }
    }

    /// The tag that the composer writes for this format, in code units.
    pub fn tag_units(&self) -> (r: Vec<u16>)
        ensures
            r@ == tag_units_of(*self),
    {
        let r = match self {
            InlineFormatType::Bold => vec![0x73u16, 0x74, 0x72, 0x6F, 0x6E, 0x67],
            InlineFormatType::Italic => vec![0x65u16, 0x6D],
            InlineFormatType::StrikeThrough => vec![0x64u16, 0x65, 0x6C],
            InlineFormatType::Underline => vec![0x75u16],
            InlineFormatType::InlineCode => vec![0x63u16, 0x6F, 0x64, 0x65],
        };
        assert(r@ =~= tag_units_of(*self));
        r
    }

    /// The toolbar action that applies this format.
    pub fn action(&self) -> (r: ComposerAction)
        ensures
            r == action_of(*self),
    {
        match self {
            InlineFormatType::Bold => ComposerAction::Bold,
            InlineFormatType::Italic => ComposerAction::Italic,
            InlineFormatType::StrikeThrough => ComposerAction::StrikeThrough,
            InlineFormatType::Underline => ComposerAction::Underline,
            InlineFormatType::InlineCode => ComposerAction::InlineCode,
        }
    }

    /// The format that a tag names, if any.
    pub fn from_tag(tag: &str) -> (r: Option<InlineFormatType>)
        ensures
            r == format_of_tag(tag@),
    {
        proof {
            reveal_strlit("b");
            reveal_strlit("strong");
            reveal_strlit("i");
            reveal_strlit("em");
            reveal_strlit("del");
            reveal_strlit("u");
            reveal_strlit("code");
            assert("b"@ =~= seq!['b']);
            assert("strong"@ =~= seq!['s', 't', 'r', 'o', 'n', 'g']);
            assert("i"@ =~= seq!['i']);
            assert("em"@ =~= seq!['e', 'm']);
            assert("del"@ =~= seq!['d', 'e', 'l']);
            assert("u"@ =~= seq!['u']);
            assert("code"@ =~= seq!['c', 'o', 'd', 'e']);
        }
        if chars_equal(tag, "b") || chars_equal(tag, "strong") {
            Some(InlineFormatType::Bold)
        } else if chars_equal(tag, "i") || chars_equal(tag, "em") {
            Some(InlineFormatType::Italic)
        } else if chars_equal(tag, "del") {
            Some(InlineFormatType::StrikeThrough)
        } else if chars_equal(tag, "u") {
            Some(InlineFormatType::Underline)
        } else if chars_equal(tag, "code") {
            Some(InlineFormatType::InlineCode)
        } else {
            None
        }
    }
}

} // verus!
