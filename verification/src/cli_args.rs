//! The parser of the command-line flag values: symbolic-name resolution
//! against static tables, the `--colors` attribute applicator, the
//! line-number style parser, and the orchestrator that assembles a
//! configuration out of plain flag values.

use vstd::prelude::*;
use vstd::string::StrSliceExecFns;
use vstd::string::StringExecFns;
use crate::config::AppConfig;
use crate::config::ColorValue;
use crate::config::ConfigModel;
use crate::config::FaceName;
use crate::config::LineNumberStyle;
use crate::config::StyleRecord;
use crate::config::spec_default_config;
use crate::config::spec_default_style;
use crate::strutil::spec_split;
use crate::strutil::split_colon;
use crate::strutil::str_eq;
use termcolor::Color;

verus! {

/// An enumeration that can be resolved from a symbolic name against a static
/// ordered table of (name, value) pairs.
pub trait EnumString: Sized + Copy {
    /// The table of valid names and their values, in declaration order.
    spec fn spec_data() -> Seq<(Seq<char>, Self)>;

    /// The executable table; it lists exactly the pairs of `spec_data`.
    fn data() -> (r: Vec<(String, Self)>)
        ensures
            r@.len() == Self::spec_data().len(),
            forall|i: int|
                0 <= i < r@.len() ==> (#[trigger] r@[i]).0@ == Self::spec_data()[i].0 && r@[i].1
                    == Self::spec_data()[i].1,
    ;
}

/// The value of the first table entry whose name is `s`, if any.
pub open spec fn spec_lookup<T>(d: Seq<(Seq<char>, T)>, s: Seq<char>) -> Option<T>
    decreases d.len(),
{
    if d.len() == 0 {
        None
    } else if d[0].0 == s {
        Some(d[0].1)
    } else {
        spec_lookup(d.drop_first(), s)
    }
}

/// The names of a table, in order.
pub open spec fn spec_names<T>(d: Seq<(Seq<char>, T)>) -> Seq<Seq<char>> {
    d.map_values(|p: (Seq<char>, T)| p.0)
}

/// The names joined with `|`, in order.
pub open spec fn spec_join_bar(names: Seq<Seq<char>>) -> Seq<char>
    decreases names.len(),
{
    if names.len() == 0 {
        Seq::empty()
    } else if names.len() == 1 {
        names[0]
    } else {
        spec_join_bar(names.drop_last()) + "|"@ + names.last()
    }
}

/// The message reported when `s` matches no name of the table: the offending
/// token, then every valid name.
pub open spec fn spec_resolve_message<T>(d: Seq<(Seq<char>, T)>, s: Seq<char>) -> Seq<char> {
    "got '"@ + s + "', expected "@ + spec_join_bar(spec_names(d))
}

/// Resolving `s` against the table of `T`: the matching value, or the message
/// listing the valid names.
pub open spec fn spec_tryparse<T: EnumString>(s: Seq<char>) -> Result<T, Seq<char>> {
    match spec_lookup(T::spec_data(), s) {
        Some(v) => Ok(v),
        None => Err(spec_resolve_message(T::spec_data(), s)),
    }
}

proof fn lemma_lookup_prefix_miss<T>(d: Seq<(Seq<char>, T)>, s: Seq<char>, i: int)
    requires
        0 <= i <= d.len(),
        forall|j: int| 0 <= j < i ==> (#[trigger] d[j]).0 != s,
    ensures
        spec_lookup(d.skip(i), s) == spec_lookup(d, s),
    decreases i,
{
    if i > 0 {
        assert(d.skip(i) =~= d.drop_first().skip(i - 1));
        lemma_lookup_prefix_miss(d.drop_first(), s, i - 1);
    } else {
        assert(d.skip(0) =~= d);
    }
}

/// Resolve `input` against the table of `T`: the matching value, or an error
/// message naming the offending token and every valid name.
pub fn tryparse<T: EnumString>(input: &str) -> (r: Result<T, String>)
    ensures
        r matches Ok(v) ==> spec_tryparse::<T>(input@) == Ok::<T, Seq<char>>(v),
        r matches Err(m) ==> spec_tryparse::<T>(input@) == Err::<T, Seq<char>>(m@),
{
    let data = T::data();
    let n = data.len();
    let mut i: usize = 0;
    while i < n
        invariant
            i <= n,
            n == data.len(),
            data@.len() == T::spec_data().len(),
            forall|k: int|
                0 <= k < data@.len() ==> (#[trigger] data@[k]).0@ == T::spec_data()[k].0
                    && data@[k].1 == T::spec_data()[k].1,
            forall|j: int| 0 <= j < i ==> (#[trigger] T::spec_data()[j]).0 != input@,
        decreases n - i,
    {
        let pair = &data[i];
        if str_eq(pair.0.as_str(), input) {
            proof {
                lemma_lookup_prefix_miss(T::spec_data(), input@, i as int);
                assert(T::spec_data().skip(i as int)[0] == T::spec_data()[i as int]);
            }
            return Ok(pair.1);
        }
        i += 1;
    }
    proof {
        lemma_lookup_prefix_miss(T::spec_data(), input@, n as int);
        assert(T::spec_data().skip(n as int) =~= Seq::<(Seq<char>, T)>::empty());
    }
    let mut msg: String = "got '".to_owned();
    msg.append(input);
    msg.append("', expected ");
    let ghost pfx = "got '"@ + input@ + "', expected "@;
    proof {
        let names = spec_names(T::spec_data());
        assert(msg@ =~= pfx);
        assert(names.take(0) =~= Seq::<Seq<char>>::empty());
        assert(msg@ =~= pfx + spec_join_bar(names.take(0)));
    }
    let mut j: usize = 0;
    while j < n
        invariant
            j <= n,
            n == data.len(),
            data@.len() == T::spec_data().len(),
            forall|k: int|
                0 <= k < data@.len() ==> (#[trigger] data@[k]).0@ == T::spec_data()[k].0
                    && data@[k].1 == T::spec_data()[k].1,
            pfx == "got '"@ + input@ + "', expected "@,
            msg@ == pfx + spec_join_bar(spec_names(T::spec_data()).take(j as int)),
        decreases n - j,
    {
        if j > 0 {
            msg.append("|");
        }
        msg.append(data[j].0.as_str());
        proof {
            let names = spec_names(T::spec_data());
            assert(names[j as int] == T::spec_data()[j as int].0);
            if j == 0 {
                assert(names.take(1).len() == 1);
                assert(names.take(1)[0] == names[0]);
                assert(msg@ =~= pfx + spec_join_bar(names.take(1)));
            } else {
                assert(names.take(j as int + 1).drop_last() =~= names.take(j as int));
                assert(names.take(j as int + 1).last() == names[j as int]);
                assert(msg@ =~= pfx + spec_join_bar(names.take(j as int + 1)));
            }
        }
        j += 1;
    }
    proof {
        assert(spec_names(T::spec_data()).take(n as int) =~= spec_names(T::spec_data()));
        assert(msg@ =~= spec_resolve_message(T::spec_data(), input@));
    }
    Err(msg)
}

/// Discard a value.
pub fn ignore<T>(_v: T) {
}

impl EnumString for FaceName {
    open spec fn spec_data() -> Seq<(Seq<char>, FaceName)> {
        seq![
            ("added"@, FaceName::Added),
            ("refine-added"@, FaceName::RefineAdded),
            ("removed"@, FaceName::Removed),
            ("refine-removed"@, FaceName::RefineRemoved),
        ]
    }

    fn data() -> (r: Vec<(String, FaceName)>) {
        let mut r: Vec<(String, FaceName)> = Vec::new();
        r.push(("added".to_owned(), FaceName::Added));
        r.push(("refine-added".to_owned(), FaceName::RefineAdded));
        r.push(("removed".to_owned(), FaceName::Removed));
        r.push(("refine-removed".to_owned(), FaceName::RefineRemoved));
        r
    }
}

/// Whether a color attribute changes the foreground or the background.
#[derive(Debug, Clone, Copy, PartialEq, Eq, Structural)]
pub enum FaceColor {
    Foreground,
    Background,
}

/// One styling directive inside a color spec: a color assignment (which
/// consumes the following token as its value), a font flag, or the reset.
#[derive(Debug, Clone, Copy, PartialEq, Eq, Structural)]
pub enum AttributeName {
    Color(FaceColor),
    Italic(bool),
    Bold(bool),
    Intense(bool),
    Underline(bool),
    Reset,
}

impl EnumString for AttributeName {
    open spec fn spec_data() -> Seq<(Seq<char>, AttributeName)> {
        seq![
            ("foreground"@, AttributeName::Color(FaceColor::Foreground)),
            ("background"@, AttributeName::Color(FaceColor::Background)),
            ("italic"@, AttributeName::Italic(true)),
            ("noitalic"@, AttributeName::Italic(false)),
            ("bold"@, AttributeName::Bold(true)),
            ("nobold"@, AttributeName::Bold(false)),
            ("intense"@, AttributeName::Intense(true)),
            ("nointense"@, AttributeName::Intense(false)),
            ("underline"@, AttributeName::Underline(true)),
            ("nounderline"@, AttributeName::Underline(false)),
            ("none"@, AttributeName::Reset),
        ]
    }

    fn data() -> (r: Vec<(String, AttributeName)>) {
        let mut r: Vec<(String, AttributeName)> = Vec::new();
        r.push(("foreground".to_owned(), AttributeName::Color(FaceColor::Foreground)));
        r.push(("background".to_owned(), AttributeName::Color(FaceColor::Background)));
        r.push(("italic".to_owned(), AttributeName::Italic(true)));
        r.push(("noitalic".to_owned(), AttributeName::Italic(false)));
        r.push(("bold".to_owned(), AttributeName::Bold(true)));
        r.push(("nobold".to_owned(), AttributeName::Bold(false)));
        r.push(("intense".to_owned(), AttributeName::Intense(true)));
        r.push(("nointense".to_owned(), AttributeName::Intense(false)));
        r.push(("underline".to_owned(), AttributeName::Underline(true)));
        r.push(("nounderline".to_owned(), AttributeName::Underline(false)));
        r.push(("none".to_owned(), AttributeName::Reset));
        r
    }
}

/// A line-number style read from the command line.
#[derive(Debug, Clone, Copy, PartialEq, Eq, Structural)]
pub struct LineNumberStyleOpt(pub LineNumberStyle);

impl EnumString for LineNumberStyleOpt {
    open spec fn spec_data() -> Seq<(Seq<char>, LineNumberStyleOpt)> {
        seq![
            ("aligned"@, LineNumberStyleOpt(LineNumberStyle::Aligned)),
            ("compact"@, LineNumberStyleOpt(LineNumberStyle::Compact)),
        ]
    }

    fn data() -> (r: Vec<(String, LineNumberStyleOpt)>) {
        let mut r: Vec<(String, LineNumberStyleOpt)> = Vec::new();
        r.push(("aligned".to_owned(), LineNumberStyleOpt(LineNumberStyle::Aligned)));
        r.push(("compact".to_owned(), LineNumberStyleOpt(LineNumberStyle::Compact)));
        r
    }
}

/// The mathematical value of a parsing error.
pub enum ErrorModel {
    FaceName(Seq<char>),
    AttributeName(Seq<char>),
    Color(Seq<char>),
    MissingValue(FaceName),
    LineNumberStyle(Seq<char>),
}

/// A parsing error: an unknown face name, an unknown attribute name, an
/// invalid color value (carrying the color library's diagnostic), a color
/// attribute without a value (naming the face being configured), or an
/// unknown line-number style.
#[derive(Debug, PartialEq, Eq)]
pub enum ArgParsingError {
    FaceName(String),
    AttributeName(String),
    Color(String),
    MissingValue(FaceName),
    LineNumberStyle(String),
}

impl View for ArgParsingError {
    type V = ErrorModel;

    open spec fn view(&self) -> ErrorModel {
        match self {
            ArgParsingError::FaceName(m) => ErrorModel::FaceName(m@),
            ArgParsingError::AttributeName(m) => ErrorModel::AttributeName(m@),
            ArgParsingError::Color(m) => ErrorModel::Color(m@),
            ArgParsingError::MissingValue(f) => ErrorModel::MissingValue(*f),
            ArgParsingError::LineNumberStyle(m) => ErrorModel::LineNumberStyle(m@),
        }
    }
}

/// The user-facing message of each error kind.
pub open spec fn spec_error_message(e: ErrorModel) -> Seq<char> {
    match e {
        ErrorModel::FaceName(m) => "unexpected face name: "@ + m,
        ErrorModel::AttributeName(m) => "unexpected attribute name: "@ + m,
        ErrorModel::Color(m) => "unexpected color value: "@ + m,
        ErrorModel::MissingValue(f) => "error parsing color: missing color value for face '"@
            + f.spec_name() + "'"@,
        ErrorModel::LineNumberStyle(m) => "unexpected line number style: "@ + m,
    }
}

impl ArgParsingError {
    /// Render this error as the message shown to the user.
    pub fn message(&self) -> (r: String)
        ensures
            r@ == spec_error_message(self@),
    {
        match self {
            ArgParsingError::FaceName(m) => {
                let mut s: String = "unexpected face name: ".to_owned();
                s.append(m.as_str());
                s
            },
            ArgParsingError::AttributeName(m) => {
                let mut s: String = "unexpected attribute name: ".to_owned();
                s.append(m.as_str());
                s
            },
            ArgParsingError::Color(m) => {
                let mut s: String = "unexpected color value: ".to_owned();
                s.append(m.as_str());
                s
            },
            ArgParsingError::MissingValue(f) => {
                let mut s: String = "error parsing color: missing color value for face '".to_owned();
                s.append(f.name());
                s.append("'");
                proof {
                    assert(s@ =~= spec_error_message(self@));
                }
                s
            },
            ArgParsingError::LineNumberStyle(m) => {
                let mut s: String = "unexpected line number style: ".to_owned();
                s.append(m.as_str());
                s
            },
        }
    }
}

impl FaceName {
    /// Resolve a face name, wrapping a miss as a face-name error.
    pub fn from_str(input: &str) -> (r: Result<FaceName, ArgParsingError>)
        ensures
            r matches Ok(f) ==> spec_tryparse::<FaceName>(input@) == Ok::<FaceName, Seq<char>>(f),
            r matches Err(e) ==> (spec_tryparse::<FaceName>(input@) matches Err(m) && e@
                == ErrorModel::FaceName(m)),
    {
        match tryparse::<FaceName>(input) {
            Ok(f) => Ok(f),
            Err(m) => Err(ArgParsingError::FaceName(m)),
        }
    }
}

impl AttributeName {
    /// Resolve an attribute name, wrapping a miss as an attribute-name error.
    pub fn from_str(input: &str) -> (r: Result<AttributeName, ArgParsingError>)
        ensures
            r matches Ok(a) ==> spec_tryparse::<AttributeName>(input@) == Ok::<
                AttributeName,
                Seq<char>,
            >(a),
            r matches Err(e) ==> (spec_tryparse::<AttributeName>(input@) matches Err(m) && e@
                == ErrorModel::AttributeName(m)),
    {
        match tryparse::<AttributeName>(input) {
            Ok(a) => Ok(a),
            Err(m) => Err(ArgParsingError::AttributeName(m)),
        }
    }
}

impl LineNumberStyleOpt {
    /// Resolve a line-number style name, wrapping a miss as a
    /// line-number-style error.
    pub fn from_str(input: &str) -> (r: Result<LineNumberStyleOpt, ArgParsingError>)
        ensures
            r matches Ok(o) ==> spec_tryparse::<LineNumberStyleOpt>(input@) == Ok::<
                LineNumberStyleOpt,
                Seq<char>,
            >(o),
            r matches Err(e) ==> (spec_tryparse::<LineNumberStyleOpt>(input@) matches Err(m) && e@
                == ErrorModel::LineNumberStyle(m)),
    {
        match tryparse::<LineNumberStyleOpt>(input) {
            Ok(o) => Ok(o),
            Err(m) => Err(ArgParsingError::LineNumberStyle(m)),
        }
    }
}

/// What termcolor's color parser yields for a token: the parsed color, or the
/// rendered diagnostic. The outcome depends on the token alone.
pub uninterp spec fn termcolor_color_of(s: Seq<char>) -> Result<ColorValue, Seq<char>>;

/// Relies on termcolor's `Color::from_str` to parse a color token (a basic
/// color name, a 0-255 index, or an `r,g,b` triple), and on the display of its
/// `ParseColorError` for the failure diagnostic; both depend on the token
/// alone. `from_str` never yields the parser-internal hidden variant, so the
/// catch-all arm is unreachable.
#[verifier::external_body]
fn parse_termcolor(input: &str) -> (r: Result<ColorValue, String>)
    ensures
        (match r {
            Ok(c) => termcolor_color_of(input@) == Ok::<ColorValue, Seq<char>>(c),
            Err(m) => termcolor_color_of(input@) == Err::<ColorValue, Seq<char>>(m@),
        }),
{
    match input.parse() {
        Ok(Color::Black) => Ok(ColorValue::Black),
        Ok(Color::Blue) => Ok(ColorValue::Blue),
        Ok(Color::Green) => Ok(ColorValue::Green),
        Ok(Color::Red) => Ok(ColorValue::Red),
        Ok(Color::Cyan) => Ok(ColorValue::Cyan),
        Ok(Color::Magenta) => Ok(ColorValue::Magenta),
        Ok(Color::Yellow) => Ok(ColorValue::Yellow),
        Ok(Color::White) => Ok(ColorValue::White),
        Ok(Color::Ansi256(n)) => Ok(ColorValue::Ansi256(n)),
        Ok(Color::Rgb(r, g, b)) => Ok(ColorValue::Rgb(r, g, b)),
        Ok(_) => Err(String::new()),
        Err(e) => Err(format!("{}", e)),
    }
}

/// An optional color read from the command line: the `none` sentinel clears a
/// color; anything else is handed to the color library.
pub struct ColorOpt(pub Option<ColorValue>);

/// Parsing a color token: `none` means no color; any other token is what the
/// color library makes of it.
pub open spec fn spec_color_opt(s: Seq<char>) -> Result<Option<ColorValue>, Seq<char>> {
    if s == "none"@ {
        Ok(None)
    } else {
        match termcolor_color_of(s) {
            Ok(c) => Ok(Some(c)),
            Err(m) => Err(m),
        }
    }
}

impl ColorOpt {
    /// Parse a color token, wrapping a color-library failure as a color
    /// error.
    pub fn from_str(input: &str) -> (r: Result<ColorOpt, ArgParsingError>)
        ensures
            r matches Ok(c) ==> spec_color_opt(input@) == Ok::<Option<ColorValue>, Seq<char>>(c.0),
            r matches Err(e) ==> (spec_color_opt(input@) matches Err(m) && e@ == ErrorModel::Color(
                m,
            )),
    {
        if str_eq(input, "none") {
            Ok(ColorOpt(None))
        } else {
            match parse_termcolor(input) {
                Ok(c) => Ok(ColorOpt(Some(c))),
                Err(m) => Err(ArgParsingError::Color(m)),
            }
        }
    }
}

/// What a sequence of attribute tokens makes of one face's style record,
/// walked left to right: an unknown name or a bad color value is an error; a
/// color attribute consumes the following token as its value and is an error
/// when none follows; a font flag sets its field; the reset replaces the
/// record with the default style.
pub open spec fn spec_apply_attributes(
    face: FaceName,
    s: StyleRecord,
    toks: Seq<Seq<char>>,
) -> Result<StyleRecord, ErrorModel>
    decreases toks.len(),
{
    if toks.len() == 0 {
        Ok(s)
    } else {
        match spec_lookup(AttributeName::spec_data(), toks[0]) {
            None => Err(
                ErrorModel::AttributeName(spec_resolve_message(AttributeName::spec_data(), toks[0])),
            ),
            Some(a) => match a {
                AttributeName::Color(kind) => {
                    if toks.len() == 1 {
                        Err(ErrorModel::MissingValue(face))
                    } else {
                        match spec_color_opt(toks[1]) {
                            Ok(c) => {
                                let s2 = match kind {
                                    FaceColor::Foreground => StyleRecord { fg: c, ..s },
                                    FaceColor::Background => StyleRecord { bg: c, ..s },
                                };
                                spec_apply_attributes(face, s2, toks.skip(2))
                            },
                            Err(m) => Err(ErrorModel::Color(m)),
                        }
                    }
                },
                AttributeName::Italic(b) => spec_apply_attributes(
                    face,
                    StyleRecord { italic: b, ..s },
                    toks.drop_first(),
                ),
                AttributeName::Bold(b) => spec_apply_attributes(
                    face,
                    StyleRecord { bold: b, ..s },
                    toks.drop_first(),
                ),
                AttributeName::Intense(b) => spec_apply_attributes(
                    face,
                    StyleRecord { intense: b, ..s },
                    toks.drop_first(),
                ),
                AttributeName::Underline(b) => spec_apply_attributes(
                    face,
                    StyleRecord { underline: b, ..s },
                    toks.drop_first(),
                ),
                AttributeName::Reset => spec_apply_attributes(
                    face,
                    spec_default_style(),
                    toks.drop_first(),
                ),
            },
        }
    }
}

/// The applicator's two states: a token is either the next attribute name, or
/// the color value owed to the color attribute just read.
#[derive(Debug, Clone, Copy, PartialEq, Eq, Structural)]
pub enum ApplyState {
    AwaitingName,
    AwaitingValue(FaceColor),
}

/// The applicator in its second state: a color attribute of kind `kind` has
/// been read for `face`, and the first of the remaining tokens is owed as its
/// value. No token left is the missing-value error.
pub open spec fn spec_await_color_value(
    face: FaceName,
    s: StyleRecord,
    kind: FaceColor,
    rest: Seq<Seq<char>>,
) -> Result<StyleRecord, ErrorModel> {
    if rest.len() == 0 {
        Err(ErrorModel::MissingValue(face))
    } else {
        match spec_color_opt(rest[0]) {
            Ok(c) => {
                let s2 = match kind {
                    FaceColor::Foreground => StyleRecord { fg: c, ..s },
                    FaceColor::Background => StyleRecord { bg: c, ..s },
                };
                spec_apply_attributes(face, s2, rest.drop_first())
            },
            Err(m) => Err(ErrorModel::Color(m)),
        }
    }
}

/// Apply the attribute tokens `values` to the style record of `face_name`,
/// one token at a time through the two-state machine. On success exactly that
/// face's record is replaced; on error the configuration is unchanged.
pub fn parse_color_attributes(
    config: &mut AppConfig,
    values: &Vec<String>,
    face_name: FaceName,
) -> (r: Result<(), ArgParsingError>)
    ensures
        r matches Ok(_) ==> (spec_apply_attributes(
            face_name,
            old(config).spec_face(face_name),
            values.deep_view(),
        ) matches Ok(s) && final(config)@.faces == old(config)@.faces.update(
            face_name.spec_slot(),
            s,
        )),
        r matches Ok(_) ==> final(config).debug == old(config).debug && final(config).html == old(
            config,
        ).html && final(config).line_numbers_style == old(config).line_numbers_style,
        r matches Err(e) ==> spec_apply_attributes(
            face_name,
            old(config).spec_face(face_name),
            values.deep_view(),
        ) == Err::<StyleRecord, ErrorModel>(e@) && *final(config) == *old(config),
{
    let ghost toks = values.deep_view();
    let ghost orig = old(config).spec_face(face_name);
    let mut style = config.get_face(face_name);
    let mut state: ApplyState = ApplyState::AwaitingName;
    let n = values.len();
    let mut i: usize = 0;
    proof {
        assert(toks.skip(0) =~= toks);
    }
    while i < n
        invariant
            i <= n,
            n == values.len(),
            toks == values.deep_view(),
            orig == old(config).spec_face(face_name),
            *config == *old(config),
            spec_apply_attributes(face_name, orig, toks) == (match state {
                ApplyState::AwaitingName => spec_apply_attributes(
                    face_name,
                    style,
                    toks.skip(i as int),
                ),
                ApplyState::AwaitingValue(kind) => spec_await_color_value(
                    face_name,
                    style,
                    kind,
                    toks.skip(i as int),
                ),
            }),
        decreases n - i,
    {
        proof {
            assert(toks.skip(i as int)[0] == toks[i as int]);
            assert(toks[i as int] == values@[i as int]@);
            assert(toks.skip(i as int).drop_first() =~= toks.skip(i as int + 1));
        }
        match state {
            ApplyState::AwaitingName => {
                let attribute_name = match AttributeName::from_str(values[i].as_str()) {
                    Ok(a) => a,
                    Err(e) => {
                        return Err(e);
                    },
                };
                match attribute_name {
                    AttributeName::Color(kind) => {
                        proof {
                            if i + 1 < n {
                                assert(toks.skip(i as int).skip(2) =~= toks.skip(
                                    i as int + 1,
                                ).drop_first());
                                assert(toks.skip(i as int)[1] == toks.skip(i as int + 1)[0]);
                            } else {
                                assert(toks.skip(i as int).len() == 1);
                                assert(toks.skip(i as int + 1).len() == 0);
                            }
                        }
                        state = ApplyState::AwaitingValue(kind);
                    },
                    AttributeName::Italic(b) => style.italic = b,
                    AttributeName::Bold(b) => style.bold = b,
                    AttributeName::Intense(b) => style.intense = b,
                    AttributeName::Underline(b) => style.underline = b,
                    AttributeName::Reset => style = StyleRecord::default(),
                }
            },
            ApplyState::AwaitingValue(kind) => {
                let color = match ColorOpt::from_str(values[i].as_str()) {
                    Ok(c) => c.0,
                    Err(e) => {
                        return Err(e);
                    },
                };
                match kind {
                    FaceColor::Foreground => style.fg = color,
                    FaceColor::Background => style.bg = color,
                }
                state = ApplyState::AwaitingName;
            },
        }
        i += 1;
    }
    proof {
        assert(toks.skip(n as int) =~= Seq::<Seq<char>>::empty());
    }
    match state {
        ApplyState::AwaitingName => {
            config.set_face(face_name, style);
            Ok(())
        },
        ApplyState::AwaitingValue(_) => Err(ArgParsingError::MissingValue(face_name)),
    }
}

/// What one `--colors` value makes of the configuration: an empty value is a
/// no-op; otherwise the first `:`-separated piece names the face and the rest
/// are its attribute tokens.
pub open spec fn spec_parse_color_spec(c: ConfigModel, value: Seq<char>) -> Result<
    ConfigModel,
    ErrorModel,
> {
    if value.len() == 0 {
        Ok(c)
    } else {
        let toks = spec_split(value);
        match spec_lookup(FaceName::spec_data(), toks[0]) {
            None => Err(
                ErrorModel::FaceName(spec_resolve_message(FaceName::spec_data(), toks[0])),
            ),
            Some(f) => match spec_apply_attributes(f, c.faces[f.spec_slot()], toks.drop_first()) {
                Ok(s) => Ok(ConfigModel { faces: c.faces.update(f.spec_slot(), s), ..c }),
                Err(e) => Err(e),
            },
        }
    }
}

/// What a sequence of `--colors` values makes of the configuration, applied
/// in the order given; the first error wins.
pub open spec fn spec_parse_color_args(c: ConfigModel, values: Seq<Seq<char>>) -> Result<
    ConfigModel,
    ErrorModel,
>
    decreases values.len(),
{
    if values.len() == 0 {
        Ok(c)
    } else {
        match spec_parse_color_spec(c, values[0]) {
            Ok(c2) => spec_parse_color_args(c2, values.drop_first()),
            Err(e) => Err(e),
        }
    }
}

/// The pieces of `v` from index `start` on, as owned strings.
fn tail_of(v: &Vec<String>, start: usize) -> (r: Vec<String>)
    requires
        start <= v.len(),
    ensures
        r.deep_view() == v.deep_view().skip(start as int),
{
    let mut r: Vec<String> = Vec::new();
    let mut i: usize = start;
    while i < v.len()
        invariant
            start <= i <= v.len(),
            r.deep_view() =~= v.deep_view().subrange(start as int, i as int),
        decreases v.len() - i,
    {
        let ghost prev = r.deep_view();
        r.push(v[i].clone());
        proof {
            assert(r.deep_view() =~= prev.push(v@[i as int]@));
            assert(r.deep_view() =~= v.deep_view().subrange(start as int, i as int + 1));
        }
        i += 1;
    }
    proof {
        assert(r.deep_view() =~= v.deep_view().skip(start as int));
    }
    r
}

/// Apply each `--colors` value to the configuration, in order. On the first
/// error the configuration is left unchanged.
pub fn parse_color_args(config: &mut AppConfig, values: &Vec<String>) -> (r: Result<
    (),
    ArgParsingError,
>)
    ensures
        r matches Ok(_) ==> spec_parse_color_args(old(config)@, values.deep_view()) == Ok::<
            ConfigModel,
            ErrorModel,
        >(final(config)@),
        r matches Err(e) ==> spec_parse_color_args(old(config)@, values.deep_view()) == Err::<
            ConfigModel,
            ErrorModel,
        >(e@) && *final(config) == *old(config),
{
    let ghost vals = values.deep_view();
    let saved: AppConfig = *config;
    let n = values.len();
    let mut k: usize = 0;
    proof {
        assert(vals.skip(0) =~= vals);
    }
    while k < n
        invariant
            k <= n,
            n == values.len(),
            vals == values.deep_view(),
            saved == *old(config),
            spec_parse_color_args(old(config)@, vals) == spec_parse_color_args(
                config@,
                vals.skip(k as int),
            ),
        decreases n - k,
    {
        proof {
            assert(vals.skip(k as int)[0] == vals[k as int]);
            assert(vals[k as int] == values@[k as int]@);
        }
        let ghost cfg0 = *config;
        let value = &values[k];
        if !value.as_str().is_empty() {
            let pieces = split_colon(value.as_str());
            proof {
                assert(pieces.deep_view()[0] == spec_split(value@)[0]);
                assert(pieces.deep_view().skip(1) =~= spec_split(value@).drop_first());
            }
            let face_name = match FaceName::from_str(pieces[0].as_str()) {
                Ok(f) => f,
                Err(e) => {
                    proof {
                        assert(spec_parse_color_spec(cfg0@, vals[k as int]) == Err::<
                            ConfigModel,
                            ErrorModel,
                        >(e@));
                    }
                    *config = saved;
                    return Err(e);
                },
            };
            let attributes = tail_of(&pieces, 1);
            match parse_color_attributes(config, &attributes, face_name) {
                Ok(_) => {
                    proof {
                        let toks = spec_split(vals[k as int]);
                        let s = spec_apply_attributes(
                            face_name,
                            cfg0.spec_face(face_name),
                            toks.drop_first(),
                        )->Ok_0;
                        assert(config@ =~= (ConfigModel {
                            faces: cfg0@.faces.update(face_name.spec_slot(), s),
                            ..cfg0@
                        }));
                        assert(spec_parse_color_spec(cfg0@, vals[k as int]) == Ok::<
                            ConfigModel,
                            ErrorModel,
                        >(config@));
                    }
                },
                Err(e) => {
                    proof {
                        assert(spec_parse_color_spec(cfg0@, vals[k as int]) == Err::<
                            ConfigModel,
                            ErrorModel,
                        >(e@));
                    }
                    *config = saved;
                    return Err(e);
                },
            }
        }
        proof {
            assert(spec_parse_color_spec(cfg0@, vals[k as int]) == Ok::<ConfigModel, ErrorModel>(
                config@,
            ));
            assert(vals.skip(k as int).drop_first() =~= vals.skip(k as int + 1));
        }
        k += 1;
    }
    proof {
        assert(vals.skip(n as int) =~= Seq::<Seq<char>>::empty());
    }
    Ok(())
}

/// The line-number style chosen by the values of a repeated flag: the last
/// value wins; with no value at all the style is compact.
pub open spec fn spec_line_number_style(values: Seq<Seq<char>>) -> Result<
    LineNumberStyle,
    ErrorModel,
> {
    if values.len() == 0 {
        Ok(LineNumberStyle::Compact)
    } else {
        match spec_lookup(LineNumberStyleOpt::spec_data(), values.last()) {
            Some(o) => Ok(o.0),
            None => Err(
                ErrorModel::LineNumberStyle(
                    spec_resolve_message(LineNumberStyleOpt::spec_data(), values.last()),
                ),
            ),
        }
    }
}

/// Store the line-number style chosen by `values` (the last value wins; none
/// at all means compact). On error the configuration is unchanged.
pub fn parse_line_number_style(config: &mut AppConfig, values: &Vec<String>) -> (r: Result<
    (),
    ArgParsingError,
>)
    ensures
        r matches Ok(_) ==> (spec_line_number_style(values.deep_view()) matches Ok(st)
            && final(config)@ == (ConfigModel { line_numbers_style: Some(st), ..old(config)@ })),
        r matches Err(e) ==> spec_line_number_style(values.deep_view()) == Err::<
            LineNumberStyle,
            ErrorModel,
        >(e@) && *final(config) == *old(config),
{
    if values.len() == 0 {
        config.line_numbers_style = Some(LineNumberStyle::Compact);
        Ok(())
    } else {
        proof {
            assert(values.deep_view().last() == values@[values.len() - 1]@);
        }
        match LineNumberStyleOpt::from_str(values[values.len() - 1].as_str()) {
            Ok(o) => {
                config.line_numbers_style = Some(o.0);
                Ok(())
            },
            Err(e) => Err(e),
        }
    }
}

/// The views of an optional list of flag values.
pub open spec fn spec_opt_values(o: Option<&Vec<String>>) -> Option<Seq<Seq<char>>> {
    match o {
        None => None,
        Some(v) => Some(v.deep_view()),
    }
}

/// The configuration built from the plain flag values: the default
/// configuration, the two toggles, the line-number style if its flag was
/// given at all, then every `--colors` value in order. The first error wins:
/// a bad line-number style is reported before any color error.
pub open spec fn spec_build_config(
    debug: bool,
    html: bool,
    line_values: Option<Seq<Seq<char>>>,
    colors: Seq<Seq<char>>,
) -> Result<ConfigModel, ErrorModel> {
    let base = ConfigModel { debug, html, ..spec_default_config() };
    match line_values {
        None => spec_parse_color_args(base, colors),
        Some(vs) => match spec_line_number_style(vs) {
            Ok(st) => spec_parse_color_args(
                ConfigModel { line_numbers_style: Some(st), ..base },
                colors,
            ),
            Err(e) => Err(e),
        },
    }
}

/// Build the configuration from the plain flag values: the two toggles,
/// the values of the line-number flag if it was given at all, and one string
/// per `--colors` occurrence, in order.
pub fn build_config(
    debug: bool,
    html: bool,
    line_number_values: Option<&Vec<String>>,
    color_values: &Vec<String>,
) -> (r: Result<AppConfig, ArgParsingError>)
    ensures
        r matches Ok(c) ==> spec_build_config(
            debug,
            html,
            spec_opt_values(line_number_values),
            color_values.deep_view(),
        ) == Ok::<ConfigModel, ErrorModel>(c@),
        r matches Err(e) ==> spec_build_config(
            debug,
            html,
            spec_opt_values(line_number_values),
            color_values.deep_view(),
        ) == Err::<ConfigModel, ErrorModel>(e@),
{
    let mut config = AppConfig::default();
    config.debug = debug;
    config.html = html;
    proof {
        assert(config@ =~= (ConfigModel { debug, html, ..spec_default_config() }));
    }
    match line_number_values {
        None => {},
        Some(vs) => {
            match parse_line_number_style(&mut config, vs) {
                Ok(_) => {},
                Err(e) => {
                    return Err(e);
                },
            }
        },
    }
    match parse_color_args(&mut config, color_values) {
        Ok(_) => Ok(config),
        Err(e) => Err(e),
    }
}

} // verus!
