//! The path grammar and its parser.
//!
//! A path string such as `parent[0].name` is a non-empty sequence of
//! tokens separated by `.`, where each token is a bare field name or a
//! field name immediately followed by a decimal index in brackets. The
//! parser scans left to right in a single pass; its behaviour is pinned
//! down by the specification function [`parse_model`], which runs the
//! same character-by-character state machine over the view of the input.

use vstd::prelude::*;

verus! {

/// A single component of a parsed path.
#[derive(Debug, Clone, PartialEq)]
pub enum PathComponent {
    /// A field name (e.g. `name`, `father`).
    Field(String),
    /// A field naming an array, and an index into it (e.g. `pets[0]`).
    ArrayIndex(String, usize),
}

/// A parsed path.
#[derive(Debug, Clone)]
pub struct Path {
    /// The components of the path.
    pub components: Vec<PathComponent>,
}

/// The mathematical shape of one access step: a [`PathComponent`] with
/// its field name abstracted to a sequence of characters.
pub enum StepModel {
    Field(Seq<char>),
    ArrayIndex(Seq<char>, usize),
}

impl View for PathComponent {
    type V = StepModel;

    open spec fn view(&self) -> StepModel {
        match self {
            PathComponent::Field(name) => StepModel::Field(name@),
            PathComponent::ArrayIndex(name, i) => StepModel::ArrayIndex(name@, *i),
        }
    }
}

/// The steps that a sequence of components stands for.
pub open spec fn steps_view(cs: Seq<PathComponent>) -> Seq<StepModel> {
    cs.map_values(|c: PathComponent| c@)
}

impl View for Path {
    type V = Seq<StepModel>;

    open spec fn view(&self) -> Seq<StepModel> {
        steps_view(self.components@)
    }
}

/// Why a path string failed to parse.
#[derive(Debug)]
pub enum PathParseError {
    /// The input was empty, or held no step at all.
    EmptyPath,
    /// The bracket content was not a plain decimal index; carries that
    /// content.
    InvalidArrayIndex(String),
    /// The input ended inside `[...]`.
    UnclosedBracket,
    /// A character that may not stand where it stood; carries it.
    UnexpectedChar(char),
}

/// The mathematical shape of a [`PathParseError`].
pub enum ParseErrorModel {
    EmptyPath,
    InvalidArrayIndex(Seq<char>),
    UnclosedBracket,
    UnexpectedChar(char),
}

impl View for PathParseError {
    type V = ParseErrorModel;

    open spec fn view(&self) -> ParseErrorModel {
        match self {
            PathParseError::EmptyPath => ParseErrorModel::EmptyPath,
            PathParseError::InvalidArrayIndex(t) => ParseErrorModel::InvalidArrayIndex(t@),
            PathParseError::UnclosedBracket => ParseErrorModel::UnclosedBracket,
            PathParseError::UnexpectedChar(c) => ParseErrorModel::UnexpectedChar(*c),
        }
    }
}

/// Whether `c` has the Unicode `White_Space` property. Any such
/// character anywhere in a path is a syntax error.
pub open spec fn spec_is_whitespace(c: char) -> bool {
    let u = c as u32;
    (9 <= u && u <= 13) || u == 32 || u == 0x85 || u == 0xA0 || u == 0x1680 || (0x2000 <= u
        && u <= 0x200A) || u == 0x2028 || u == 0x2029 || u == 0x202F || u == 0x205F || u == 0x3000
}

/// Whether `c` is a decimal digit.
pub open spec fn spec_is_digit(c: char) -> bool {
    48 <= (c as u32) && (c as u32) <= 57
}

/// The numeric value of the digit `c`.
pub open spec fn spec_digit_val(c: char) -> nat {
    ((c as u32) - 48) as nat
}

/// Whether every character of `s` is a decimal digit.
pub open spec fn all_digits(s: Seq<char>) -> bool {
    forall|i: int| 0 <= i < s.len() ==> spec_is_digit(#[trigger] s[i])
}

/// The value of `s` read as a decimal numeral, most significant digit
/// first.
pub open spec fn digits_val(s: Seq<char>) -> nat
    decreases s.len(),
{
    if s.len() == 0 {
        0
    } else {
        digits_val(s.drop_last()) * 10 + spec_digit_val(s.last())
    }
}

/// The index that the bracket content `s` stands for: its decimal value,
/// provided `s` is non-empty, all digits, and fits in a `usize`.
pub open spec fn token_value(s: Seq<char>) -> Option<usize> {
    if s.len() > 0 && all_digits(s) && digits_val(s) <= usize::MAX {
        Some(digits_val(s) as usize)
    } else {
        None
    }
}

/// The parser's state between characters: the steps pushed so far, the
/// characters of the token being accumulated, whether the scan stands
/// inside `[...]`, and whether the previous character closed a bracket.
pub struct ScanState {
    pub steps: Seq<StepModel>,
    pub token: Seq<char>,
    pub in_bracket: bool,
    pub after_close: bool,
}

pub open spec fn scan_init() -> ScanState {
    ScanState { steps: Seq::empty(), token: Seq::empty(), in_bracket: false, after_close: false }
}

/// One transition of the parser's state machine on the character `c`.
/// `at_start` says whether `c` is the very first character of the input;
/// only there may `.` follow an empty token (besides right after `]`).
pub open spec fn scan_char(st: ScanState, c: char, at_start: bool) -> Result<
    ScanState,
    ParseErrorModel,
> {
    if st.in_bracket {
        if c == ']' {
            match token_value(st.token) {
                Some(idx) => {
                    if st.steps.len() > 0 && (st.steps.last() matches StepModel::Field(name)) {
                        Ok(
                            ScanState {
                                steps: st.steps.update(
                                    st.steps.len() - 1,
                                    StepModel::ArrayIndex(step_name(st.steps.last()), idx),
                                ),
                                token: Seq::empty(),
                                in_bracket: false,
                                after_close: true,
                            },
                        )
                    } else {
                        Err(ParseErrorModel::UnexpectedChar(']'))
                    }
                },
                None => Err(ParseErrorModel::InvalidArrayIndex(st.token)),
            }
        } else if spec_is_whitespace(c) {
            Err(ParseErrorModel::UnexpectedChar(c))
        } else {
            Ok(
                ScanState {
                    steps: st.steps,
                    token: st.token.push(c),
                    in_bracket: true,
                    after_close: st.after_close,
                },
            )
        }
    } else {
        if c == '.' {
            if st.token.len() > 0 {
                Ok(
                    ScanState {
                        steps: st.steps.push(StepModel::Field(st.token)),
                        token: Seq::empty(),
                        in_bracket: false,
                        after_close: false,
                    },
                )
            } else if at_start || st.after_close {
                Ok(
                    ScanState {
                        steps: st.steps,
                        token: st.token,
                        in_bracket: false,
                        after_close: false,
                    },
                )
            } else {
                Err(ParseErrorModel::UnexpectedChar('.'))
            }
        } else if c == '[' {
            if st.token.len() == 0 {
                Err(ParseErrorModel::UnexpectedChar('['))
            } else {
                Ok(
                    ScanState {
                        steps: st.steps.push(StepModel::Field(st.token)),
                        token: Seq::empty(),
                        in_bracket: true,
                        after_close: false,
                    },
                )
            }
        } else if spec_is_whitespace(c) {
            Err(ParseErrorModel::UnexpectedChar(c))
        } else {
            Ok(
                ScanState {
                    steps: st.steps,
                    token: st.token.push(c),
                    in_bracket: false,
                    after_close: false,
                },
            )
        }
    }
}

/// The name that the step carries.
pub open spec fn step_name(s: StepModel) -> Seq<char> {
    match s {
        StepModel::Field(name) => name,
        StepModel::ArrayIndex(name, _) => name,
    }
}

/// The parser's state after the first `n` characters of `s`, or the
/// first error met.
pub open spec fn scan(s: Seq<char>, n: int) -> Result<ScanState, ParseErrorModel>
    decreases n,
{
    if n <= 0 {
        Ok(scan_init())
    } else {
        match scan(s, n - 1) {
            Ok(st) => scan_char(st, s[n - 1], n - 1 == 0),
            Err(e) => Err(e),
        }
    }
}

/// What end of input makes of a final scan state: an unclosed bracket is
/// an error, a non-empty trailing token becomes a final field step, and
/// a path without a single step is empty.
pub open spec fn scan_finish(st: ScanState) -> Result<Seq<StepModel>, ParseErrorModel> {
    if st.in_bracket {
        Err(ParseErrorModel::UnclosedBracket)
    } else {
        let steps = if st.token.len() > 0 {
            st.steps.push(StepModel::Field(st.token))
        } else {
            st.steps
        };
        if steps.len() == 0 {
            Err(ParseErrorModel::EmptyPath)
        } else {
            Ok(steps)
        }
    }
}

/// The steps that the path string `s` stands for, or the first error met
/// scanning left to right. This is the whole grammar in one function;
/// [`Path::from_str`] returns exactly this.
pub open spec fn parse_model(s: Seq<char>) -> Result<Seq<StepModel>, ParseErrorModel> {
    match scan(s, s.len() as int) {
        Ok(st) => scan_finish(st),
        Err(e) => Err(e),
    }
}

/// Once the scan has erred, every longer scan returns that same error.
pub proof fn lemma_scan_err_propagates(s: Seq<char>, i: int, n: int)
    requires
        0 <= i <= n,
        scan(s, i) is Err,
    ensures
        scan(s, n) == scan(s, i),
    decreases n - i,
{
    if i < n {
        lemma_scan_err_propagates(s, i, n - 1);
    }
}

/// Parsing is deterministic: equal path strings yield equal results,
/// steps and errors alike.
pub proof fn lemma_parse_deterministic(s1: Seq<char>, s2: Seq<char>)
    requires
        s1 == s2,
    ensures
        parse_model(s1) == parse_model(s2),
{
}

/// A successfully parsed path holds at least one step.
pub proof fn lemma_parse_nonempty(s: Seq<char>)
    ensures
        parse_model(s) matches Ok(steps) ==> steps.len() >= 1,
{
}

/// Whether `c` has the Unicode `White_Space` property.
fn is_whitespace_char(c: char) -> (r: bool)
    ensures
        r == spec_is_whitespace(c),
{
    let u = c as u32;
    (9 <= u && u <= 13) || u == 32 || u == 0x85 || u == 0xA0 || u == 0x1680 || (0x2000 <= u
        && u <= 0x200A) || u == 0x2028 || u == 0x2029 || u == 0x202F || u == 0x205F || u == 0x3000
}

/// A prefix of a numeral is worth no more than the whole numeral.
proof fn lemma_digits_val_take_le(s: Seq<char>, i: int)
    requires
        0 <= i <= s.len(),
        all_digits(s),
    ensures
        digits_val(s.take(i)) <= digits_val(s),
    decreases s.len() - i,
{
    if i < s.len() {
        lemma_digits_val_take_le(s, i + 1);
        assert(s.take(i + 1).drop_last() =~= s.take(i));
        assert(s.take(i + 1).last() == s[i]);
    } else {
        assert(s.take(i) =~= s);
    }
}

/// Reads bracket content as a decimal index: `Some` exactly when `t` is
/// non-empty, all digits, and its value fits in a `usize`.
fn parse_index(t: &str) -> (r: Option<usize>)
    ensures
        r == token_value(t@),
{
    let n: usize = t.unicode_len();
    if n == 0 {
        return None;
    }
    let mut acc: usize = 0;
    let mut i: usize = 0;
    while i < n
        invariant
            i <= n,
            n == t@.len(),
            all_digits(t@.take(i as int)),
            acc == digits_val(t@.take(i as int)),
        decreases n - i,
    {
        let c = t.get_char(i);
        let u = c as u32;
        if u < 48 || u > 57 {
            proof {
                assert(!spec_is_digit(t@[i as int]));
            }
            return None;
        }
        let d: usize = (u - 48) as usize;
        proof {
            assert(t@.take(i as int + 1).drop_last() =~= t@.take(i as int));
            assert(t@.take(i as int + 1).last() == t@[i as int]);
        }
        let widened = match acc.checked_mul(10) {
            Some(m) => m.checked_add(d),
            None => None,
        };
        match widened {
            Some(next) => {
                acc = next;
            },
            None => {
                proof {
                    assert(digits_val(t@.take(i as int + 1)) > usize::MAX);
                    if all_digits(t@) {
                        lemma_digits_val_take_le(t@, i as int + 1);
                    }
                }
                return None;
            },
        }
        i += 1;
    }
    proof {
        assert(t@.take(n as int) =~= t@);
    }
    Some(acc)
}

impl Path {
    /// Create a new empty path.
    pub fn new() -> (r: Self)
        ensures
            r@ =~= Seq::<StepModel>::empty(),
    {
        Path { components: Vec::new() }
    }

    /// Get the components of the path.
    pub fn components(&self) -> (r: &[PathComponent])
        ensures
            r@ == self.components@,
    {
        self.components.as_slice()
    }

    /// Check if the path is empty.
    pub fn is_empty(&self) -> (r: bool)
        ensures
            r == (self@.len() == 0),
    {
        self.components.is_empty()
    }

    /// Parse a path string into its steps, scanning left to right in a
    /// single pass. Returns exactly what [`parse_model`] says of the
    /// input: the step sequence on success, or the first error met.
    pub fn from_str(s: &str) -> (r: Result<Self, PathParseError>)
        ensures
            r matches Ok(p) ==> parse_model(s@) matches Ok(m) && p@ == m,
            r matches Err(e) ==> parse_model(s@) matches Err(m) && e@ == m,
            r is Ok <==> parse_model(s@) is Ok,
    {
        let n: usize = s.unicode_len();
        let mut steps: Vec<PathComponent> = Vec::new();
        let mut tok_start: usize = 0;
        let mut in_bracket: bool = false;
        let mut after_close: bool = false;
        let mut i: usize = 0;
        proof {
            assert(steps_view(steps@) =~= Seq::<StepModel>::empty());
            assert(s@.subrange(0, 0) =~= Seq::<char>::empty());
        }
        while i < n
            invariant
                i <= n,
                tok_start <= i,
                n == s@.len(),
                scan(s@, i as int) == Ok::<ScanState, ParseErrorModel>(
                    ScanState {
                        steps: steps_view(steps@),
                        token: s@.subrange(tok_start as int, i as int),
                        in_bracket: in_bracket,
                        after_close: after_close,
                    },
                ),
                in_bracket ==> steps@.len() > 0 && (steps@.last()@ is Field),
            decreases n - i,
        {
            let ghost st = ScanState {
                steps: steps_view(steps@),
                token: s@.subrange(tok_start as int, i as int),
                in_bracket: in_bracket,
                after_close: after_close,
            };
            let c = s.get_char(i);
            proof {
                assert(scan(s@, i as int + 1) == scan_char(st, s@[i as int], i == 0));
            }
            if in_bracket {
                if c == ']' {
                    let tok = s.substring_char(tok_start, i);
                    match parse_index(tok) {
                        Some(idx) => {
                            let popped = steps.pop();
                            let name = match popped {
                                Some(PathComponent::Field(nm)) => nm,
                                _ => {
                                    return Err(PathParseError::UnexpectedChar(']'));
                                },
                            };
                            let ghost cs0 = st.steps;
                            steps.push(PathComponent::ArrayIndex(name, idx));
                            proof {
                                assert(steps_view(steps@) =~= cs0.update(
                                    cs0.len() - 1,
                                    StepModel::ArrayIndex(step_name(cs0.last()), idx),
                                ));
                                assert(s@.subrange(i as int + 1, i as int + 1)
                                    =~= Seq::<char>::empty());
                            }
                            in_bracket = false;
                            after_close = true;
                            tok_start = i + 1;
                        },
                        None => {
                            proof {
                                lemma_scan_err_propagates(s@, i as int + 1, n as int);
                            }
                            return Err(PathParseError::InvalidArrayIndex(tok.to_owned()));
                        },
                    }
                } else if is_whitespace_char(c) {
                    proof {
                        lemma_scan_err_propagates(s@, i as int + 1, n as int);
                    }
                    return Err(PathParseError::UnexpectedChar(c));
                } else {
                    proof {
                        assert(s@.subrange(tok_start as int, i as int + 1) =~= st.token.push(
                            s@[i as int],
                        ));
                    }
                }
            } else {
                if c == '.' {
                    if tok_start < i {
                        let name = s.substring_char(tok_start, i).to_owned();
                        let ghost cs0 = steps@;
                        steps.push(PathComponent::Field(name));
                        proof {
                            assert(steps_view(steps@) =~= steps_view(cs0).push(
                                StepModel::Field(st.token),
                            ));
                            assert(s@.subrange(i as int + 1, i as int + 1)
                                =~= Seq::<char>::empty());
                        }
                        tok_start = i + 1;
                        after_close = false;
                    } else if i == 0 || after_close {
                        proof {
                            assert(s@.subrange(i as int + 1, i as int + 1)
                                =~= Seq::<char>::empty());
                        }
                        tok_start = i + 1;
                        after_close = false;
                    } else {
                        proof {
                            lemma_scan_err_propagates(s@, i as int + 1, n as int);
                        }
                        return Err(PathParseError::UnexpectedChar('.'));
                    }
                } else if c == '[' {
                    if tok_start == i {
                        proof {
                            lemma_scan_err_propagates(s@, i as int + 1, n as int);
                        }
                        return Err(PathParseError::UnexpectedChar('['));
                    } else {
                        let name = s.substring_char(tok_start, i).to_owned();
                        let ghost cs0 = steps@;
                        steps.push(PathComponent::Field(name));
                        proof {
                            assert(steps_view(steps@) =~= steps_view(cs0).push(
                                StepModel::Field(st.token),
                            ));
                            assert(s@.subrange(i as int + 1, i as int + 1)
                                =~= Seq::<char>::empty());
                        }
                        tok_start = i + 1;
                        in_bracket = true;
                        after_close = false;
                    }
                } else if is_whitespace_char(c) {
                    proof {
                        lemma_scan_err_propagates(s@, i as int + 1, n as int);
                    }
                    return Err(PathParseError::UnexpectedChar(c));
                } else {
                    proof {
                        assert(s@.subrange(tok_start as int, i as int + 1) =~= st.token.push(
                            s@[i as int],
                        ));
                    }
                    after_close = false;
                }
            }
            i += 1;
        }
        let ghost st_final = ScanState {
            steps: steps_view(steps@),
            token: s@.subrange(tok_start as int, n as int),
            in_bracket: in_bracket,
            after_close: after_close,
        };
        if in_bracket {
            return Err(PathParseError::UnclosedBracket);
        }
        if tok_start < n {
            let name = s.substring_char(tok_start, n).to_owned();
            let ghost cs0 = steps@;
            steps.push(PathComponent::Field(name));
            proof {
                assert(steps_view(steps@) =~= steps_view(cs0).push(
                    StepModel::Field(st_final.token),
                ));
            }
        }
        if steps.is_empty() {
            return Err(PathParseError::EmptyPath);
        }
        Ok(Path { components: steps })
    }
}


/// The message that a parse error carries when it is reported through
/// `StructPathError::InvalidPath`.
pub open spec fn parse_error_message(e: ParseErrorModel) -> Seq<char> {
    match e {
        ParseErrorModel::EmptyPath => "Empty path"@,
        ParseErrorModel::InvalidArrayIndex(t) => "Invalid array index: "@ + t,
        ParseErrorModel::UnclosedBracket => "Unclosed array bracket"@,
        ParseErrorModel::UnexpectedChar(c) => "Unexpected character: "@ + seq![c],
    }
}

/// Relies on `String::from(char)`: the returned string holds that one
/// character and nothing else.
#[verifier::external_body]
fn char_to_string(c: char) -> (r: String)
    ensures
        r@ =~= seq![c],
{
    String::from(c)
}

impl PathParseError {
    /// The error rendered as a message, exactly as
    /// `StructPathError::InvalidPath` carries it.
    pub fn message(&self) -> (r: String)
        ensures
            r@ == parse_error_message(self@),
    {
        match self {
            PathParseError::EmptyPath => String::from_str("Empty path"),
            PathParseError::InvalidArrayIndex(t) => String::from_str(
                "Invalid array index: ",
            ).concat(t.as_str()),
            PathParseError::UnclosedBracket => String::from_str("Unclosed array bracket"),
            PathParseError::UnexpectedChar(c) => String::from_str(
                "Unexpected character: ",
            ).concat(char_to_string(*c).as_str()),
        }
    }
}

} // verus!

