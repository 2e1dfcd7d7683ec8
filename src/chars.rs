use vstd::prelude::*;

verus! {

/// Is `c` one of the format and control characters that are always drawn as
/// nothing: zero width, invisible?
pub open spec fn is_invisible_char(c: char) -> bool {
    c == '\r' || c == '\u{200B}' || c == '\u{200C}' || c == '\u{200D}' || c == '\u{200E}'
        || c == '\u{200F}' || c == '\u{202A}' || c == '\u{202B}' || c == '\u{202C}'
        || c == '\u{202D}' || c == '\u{202E}' || c == '\u{2060}' || c == '\u{2061}'
        || c == '\u{2062}' || c == '\u{2063}' || c == '\u{2064}' || c == '\u{2066}'
        || c == '\u{2067}' || c == '\u{2068}' || c == '\u{2069}' || c == '\u{206A}'
        || c == '\u{206B}' || c == '\u{206C}' || c == '\u{206D}' || c == '\u{206E}'
        || c == '\u{206F}' || c == '\u{FEFF}'
}

/// Code points that are always invisible (zero width).
///
/// See also [`is_ignored_char`].
pub fn invisible_char(c: char) -> (r: bool)
    ensures
        r == is_invisible_char(c),
{
    if c == '\r' {
        // Carriage return is never displayed.
        return true;
    }
    match c {
        '\u{200B}'  // ZERO WIDTH SPACE
        | '\u{200C}'  // ZERO WIDTH NON-JOINER
        | '\u{200D}'  // ZERO WIDTH JOINER
        | '\u{200E}'  // LEFT-TO-RIGHT MARK
        | '\u{200F}'  // RIGHT-TO-LEFT MARK
        | '\u{202A}'  // LEFT-TO-RIGHT EMBEDDING
        | '\u{202B}'  // RIGHT-TO-LEFT EMBEDDING
        | '\u{202C}'  // POP DIRECTIONAL FORMATTING
        | '\u{202D}'  // LEFT-TO-RIGHT OVERRIDE
        | '\u{202E}'  // RIGHT-TO-LEFT OVERRIDE
        | '\u{2060}'  // WORD JOINER
        | '\u{2061}'  // FUNCTION APPLICATION
        | '\u{2062}'  // INVISIBLE TIMES
        | '\u{2063}'  // INVISIBLE SEPARATOR
        | '\u{2064}'  // INVISIBLE PLUS
        | '\u{2066}'  // LEFT-TO-RIGHT ISOLATE
        | '\u{2067}'  // RIGHT-TO-LEFT ISOLATE
        | '\u{2068}'  // FIRST STRONG ISOLATE
        | '\u{2069}'  // POP DIRECTIONAL ISOLATE
        | '\u{206A}'  // INHIBIT SYMMETRIC SWAPPING
        | '\u{206B}'  // ACTIVATE SYMMETRIC SWAPPING
        | '\u{206C}'  // INHIBIT ARABIC FORM SHAPING
        | '\u{206D}'  // ACTIVATE ARABIC FORM SHAPING
        | '\u{206E}'  // NATIONAL DIGIT SHAPES
        | '\u{206F}'  // NOMINAL DIGIT SHAPES
        | '\u{FEFF}'  // ZERO WIDTH NO-BREAK SPACE
        => true,
        _ => false,
    }
}

/// The names of the faces that ship with the library; only these get the
/// character denylist of [`is_ignored_char`].
pub open spec fn is_builtin_font_name(name: Seq<char>) -> bool {
    name == "Ubuntu-Light"@ || name == "NotoEmoji-Regular"@ || name == "emoji-icon-font"@
        || name == "Hack"@
}

/// Code points that a built-in face named `name` never resolves, so that they
/// are drawn as the replacement character.
pub open spec fn is_ignored_char(name: Seq<char>, c: char) -> bool {
    is_builtin_font_name(name) && (
    // A religious symbol with a secondary hateful reading:
    c == '\u{534d}' || c == '\u{5350}'
    // Private-use glyphs of `Ubuntu-Light.ttf`:
    || c == '\u{E0FF}' || c == '\u{EFFD}' || c == '\u{F0FF}' || c == '\u{F200}')
}

/// Whether two strings hold the same characters.
pub fn str_eq(a: &str, b: &str) -> (r: bool)
    ensures
        r == (a@ == b@),
{
    let n = a.unicode_len();
    if n != b.unicode_len() {
        return false;
    }
    let mut i: usize = 0;
    while i < n
        invariant
            n == a@.len(),
            n == b@.len(),
            i <= n,
            forall|j: int| 0 <= j < i ==> a@[j] == b@[j],
        decreases n - i,
    {
        if a.get_char(i) != b.get_char(i) {
            return false;
        }
        i = i + 1;
    }
    assert(a@ =~= b@);
    true
}

/// Is `name` one of the faces that ship with the library?
pub fn builtin_font_name(name: &str) -> (r: bool)
    ensures
        r == is_builtin_font_name(name@),
{
    str_eq(name, "Ubuntu-Light") || str_eq(name, "NotoEmoji-Regular") || str_eq(
        name,
        "emoji-icon-font",
    ) || str_eq(name, "Hack")
}

/// Code points that the face named `name` always leaves to the replacement
/// character.
///
/// See also [`invisible_char`].
pub fn ignore_character(name: &str, c: char) -> (r: bool)
    ensures
        r == is_ignored_char(name@, c),
{
    if !builtin_font_name(name) {
        return false;
    }
    match c {
        '\u{534d}' | '\u{5350}' | '\u{E0FF}' | '\u{EFFD}' | '\u{F0FF}' | '\u{F200}' => true,
        _ => false,
    }
}

} // verus!
