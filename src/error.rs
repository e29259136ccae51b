use vstd::prelude::*;
use vstd::string::{StrSliceExecFns, StringExecFns};
use core::cmp::Ordering;

verus! {

/// The number of spaces one indentation level adds.
pub const INDENT_UNIT: usize = 2;

/// The decimal digit for `d` (< 10).
pub open spec fn digit_char(d: nat) -> char {
    if d == 0 { '0' } else if d == 1 { '1' } else if d == 2 { '2' } else if d == 3 { '3' }
    else if d == 4 { '4' } else if d == 5 { '5' } else if d == 6 { '6' } else if d == 7 { '7' }
    else if d == 8 { '8' } else { '9' }
}

/// The decimal notation of `n`, without leading zeros.
pub open spec fn decimal(n: nat) -> Seq<char>
    decreases n,
{
    if n < 10 {
        seq![digit_char(n)]
    } else {
        decimal(n / 10).push(digit_char(n % 10))
    }
}

fn digit_str(d: usize) -> (r: &'static str)
    requires
        d < 10,
    ensures
        r@ == seq![digit_char(d as nat)],
{
    proof {
        reveal_strlit("0"); reveal_strlit("1"); reveal_strlit("2"); reveal_strlit("3"); reveal_strlit("4");
        reveal_strlit("5"); reveal_strlit("6"); reveal_strlit("7"); reveal_strlit("8"); reveal_strlit("9");
    }
    if d == 0 { "0" } else if d == 1 { "1" } else if d == 2 { "2" } else if d == 3 { "3" }
    else if d == 4 { "4" } else if d == 5 { "5" } else if d == 6 { "6" } else if d == 7 { "7" }
    else if d == 8 { "8" } else { "9" }
}

/// Appends the decimal notation of `n` to `s`.
pub fn push_decimal(s: &mut String, n: usize)
    ensures
        final(s)@ == old(s)@ + decimal(n as nat),
    decreases n,
{
    if n >= 10 {
        push_decimal(s, n / 10);
    }
    s.append(digit_str(n % 10));
    proof {
        if n >= 10 {
            assert(decimal(n as nat) == decimal((n / 10) as nat).push(digit_char((n % 10) as nat)));
        }
    }
}

/// Where in a file something went wrong: path, line and column.
#[derive(Debug, Clone)]
pub struct Traceable {
    /// The path of the file.
    pub path: String,
    /// The line.
    pub line: usize,
    /// The column.
    pub column: usize,
}

/// Where a value stands in a parsed source file, as (line, column):
/// a key with its value, or a value alone.
#[derive(Clone, Copy, Debug)]
pub enum SourceLocation {
    KeyValue((usize, usize), (usize, usize)),
    Value((usize, usize)),
}

/// A location written as `path:line:column`.
pub open spec fn location_text(path: Seq<char>, line: nat, column: nat) -> Seq<char> {
    path + seq![':'] + decimal(line) + seq![':'] + decimal(column)
}

impl Traceable {
    /// A location at `loc` = (line, column) in the file at `path`.
    pub fn new(path: String, loc: (usize, usize)) -> (r: Traceable)
        ensures
            r.path@ == path@,
            r.line == loc.0,
            r.column == loc.1,
    {
        Traceable { path, line: loc.0, column: loc.1 }
    }

    /// The location `index` characters into the string that starts at this
    /// location (the column of the opening quote): one more column for the
    /// quote, then `index`.
    pub fn at_index(&self, index: usize) -> (r: Traceable)
        requires
            self.column + 1 + index <= usize::MAX,
        ensures
            r.path@ == self.path@,
            r.line == self.line,
            r.column == self.column + 1 + index,
    {
        Traceable { path: self.path.clone(), line: self.line, column: self.column + 1 + index }
    }

    /// The location at `loc` = (line, column) in the same file.
    pub fn at_loc(&self, loc: (usize, usize)) -> (r: Traceable)
        ensures
            r.path@ == self.path@,
            r.line == loc.0,
            r.column == loc.1,
    {
        Traceable { path: self.path.clone(), line: loc.0, column: loc.1 }
    }

    /// The location in the file at `path` of a parsed entry: for a key
    /// with its value, the key's (`key == Some(true)`) or the value's
    /// (`Some(false)`); for a value alone, the value's.
    pub fn combine(path: &String, loc: &SourceLocation, key: Option<bool>) -> (r: Traceable)
        requires
            loc is KeyValue ==> key is Some,
        ensures
            r.path@ == path@,
            (r.line, r.column) == (match *loc {
                SourceLocation::KeyValue(k, v) => if key == Some(true) { k } else { v },
                SourceLocation::Value(v) => v,
            }),
    {
        let (line, column) = match *loc {
            SourceLocation::KeyValue(k, v) => if let Some(true) = key { k } else { v },
            SourceLocation::Value(v) => v,
        };
        Traceable { path: path.clone(), line, column }
    }

    /// The location written as `path:line:column`.
    pub fn to_string(&self) -> (r: String)
        ensures
            r@ == location_text(self.path@, self.line as nat, self.column as nat),
    {
        let mut s = self.path.clone();
        proof { reveal_strlit(":"); }
        s.append(":");
        push_decimal(&mut s, self.line);
        s.append(":");
        push_decimal(&mut s, self.column);
        s
    }
}

/// How two locations compare: not at all in different files; by line,
/// then by column, in the same file.
pub open spec fn location_order(s: Traceable, o: Traceable) -> Option<Ordering> {
    if s.path@ != o.path@ {
        None
    } else if s.line < o.line {
        Some(Ordering::Less)
    } else if s.line > o.line {
        Some(Ordering::Greater)
    } else if s.column < o.column {
        Some(Ordering::Less)
    } else if s.column > o.column {
        Some(Ordering::Greater)
    } else {
        Some(Ordering::Equal)
    }
}

/// Orders two error locations: `None` for different files, otherwise by
/// line and then by column.
pub fn compare_errors(s: &Traceable, o: &Traceable) -> (r: Option<Ordering>)
    ensures
        r == location_order(*s, *o),
{
    if s.path != o.path {
        return None;
    }
    if s.line < o.line {
        Some(Ordering::Less)
    } else if s.line > o.line {
        Some(Ordering::Greater)
    } else if s.column < o.column {
        Some(Ordering::Less)
    } else if s.column > o.column {
        Some(Ordering::Greater)
    } else {
        Some(Ordering::Equal)
    }
}

/// The text of a traceable error: its description, then the location.
pub open spec fn traceable_text(description: Seq<char>, location: Traceable) -> Seq<char> {
    description + seq!['\n', 'a', 't', ' '] + location_text(location.path@, location.line as nat, location.column as nat)
        + seq!['\n']
}

/// Builds the text of a traceable error from its description and location.
pub fn traceable_body(description: &String, location: &Traceable) -> (r: String)
    ensures
        r@ == traceable_text(description@, *location),
{
    let mut s = description.clone();
    proof { reveal_strlit("\nat "); reveal_strlit("\n"); }
    s.append("\nat ");
    let loc = location.to_string();
    s.append(loc.as_str());
    s.append("\n");
    proof {
        assert(s@ =~= traceable_text(description@, *location));
    }
    s
}

/// An error with a code (TRAIN_CASE, unique to the kind of error), a title
/// shared by every error of its kind, and a body.
pub trait AvError {
    fn code(&self) -> String;

    fn title(&self) -> String;

    fn body(&self) -> String {
        String::new()
    }
}

/// An error that can be traced to a place in a file, such as a
/// misconfiguration.
pub trait TraceableError: AvError {
    fn location(&self) -> &Traceable;

    fn description(&self) -> String;

    /// The description, then `at path:line:column`.
    fn body(&self) -> String {
        let d = self.description();
        traceable_body(&d, self.location())
    }
}

/// `s` with `pad` inserted after every line break.
pub open spec fn spread_lines(s: Seq<char>, pad: Seq<char>) -> Seq<char>
    decreases s.len(),
{
    if s.len() == 0 {
        Seq::empty()
    } else if s.last() == '\n' {
        spread_lines(s.drop_last(), pad).push('\n') + pad
    } else {
        spread_lines(s.drop_last(), pad).push(s.last())
    }
}

/// `n` spaces.
pub open spec fn spaces(n: nat) -> Seq<char> {
    Seq::new(n, |i: int| ' ')
}

/// `s` with every line indented by `n` spaces.
pub open spec fn indented(s: Seq<char>, n: nat) -> Seq<char> {
    spaces(n) + spread_lines(s, spaces(n))
}

fn push_spaces(s: &mut String, n: usize)
    ensures
        final(s)@ == old(s)@ + spaces(n as nat),
{
    proof {
        reveal_strlit(" ");
        assert(" "@ =~= seq![' ']);
    }
    let mut i: usize = 0;
    while i < n
        invariant
            i <= n,
            s@ == old(s)@ + spaces(i as nat),
        decreases n - i,
    {
        s.append(" ");
        proof {
            reveal_strlit(" ");
            assert(" "@ =~= seq![' ']);
            assert(spaces((i + 1) as nat) =~= spaces(i as nat).push(' '));
            assert(s@ =~= old(s)@ + spaces((i + 1) as nat));
        }
        i = i + 1;
    }
}

/// Indents every line of `text` by `width` spaces.
pub fn indent_str(text: &str, width: usize) -> (r: String)
    ensures
        r@ == indented(text@, width as nat),
{
    let mut r = String::new();
    push_spaces(&mut r, width);
    let n = text.unicode_len();
    let mut i: usize = 0;
    proof {
        reveal_strlit("\n");
        assert("\n"@ =~= seq!['\n']);
    }
    while i < n
        invariant
            n == text@.len(),
            i <= n,
            r@ == spaces(width as nat) + spread_lines(text@.subrange(0, i as int), spaces(width as nat)),
        decreases n - i,
    {
        let c = text.get_char(i);
        proof {
            let t = text@.subrange(0, i + 1);
            assert(t.drop_last() =~= text@.subrange(0, i as int));
            assert(t.last() == c);
        }
        if c == '\n' {
            let ghost before = r@;
            r.append("\n");
            proof {
                reveal_strlit("\n");
                assert("\n"@ =~= seq!['\n']);
            }
            push_spaces(&mut r, width);
            proof {
                let pad = spaces(width as nat);
                assert(r@ == before + seq!['\n'] + pad);
            }
        } else {
            r.append(text.substring_char(i, i + 1));
        }
        proof {
            let pad = spaces(width as nat);
            let t = text@.subrange(0, i + 1);
            if c == '\n' {
                assert(r@ =~= pad + spread_lines(t, pad));
            } else {
                assert(text@.subrange(i as int, i + 1) =~= seq![c]);
                assert(r@ =~= pad + spread_lines(t, pad));
            }
        }
        i = i + 1;
    }
    proof {
        assert(text@.subrange(0, n as int) =~= text@);
    }
    r
}

/// Text whose lines can be indented.
pub trait Indentable {
    spec fn text(&self) -> Seq<char>;

    /// Indents every line by `levels` units of two spaces.
    fn indent(&self, levels: usize) -> (r: String)
        requires
            levels * INDENT_UNIT <= usize::MAX,
        ensures
            r@ == indented(self.text(), (levels * INDENT_UNIT) as nat);
}

impl Indentable for String {
    open spec fn text(&self) -> Seq<char> {
        self@
    }

    fn indent(&self, levels: usize) -> (r: String) {
        indent_str(self.as_str(), levels * INDENT_UNIT)
    }
}

impl<'a> Indentable for &'a str {
    open spec fn text(&self) -> Seq<char> {
        (*self)@
    }

    fn indent(&self, levels: usize) -> (r: String) {
        indent_str(*self, levels * INDENT_UNIT)
    }
}

} // verus!
