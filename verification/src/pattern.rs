//! What a user may search for, and the compiled predicate that workers run.
//!
//! Raw text is screened for characters that no Monero address can hold, is
//! wrapped according to the [`PatternType`], and only then handed to the
//! regular expression engine.
use regex::Regex;
use vstd::prelude::*;
use vstd::string::*;

verus! {

/// `regex::Regex`, carried through as an opaque value.
#[verifier::external_type_specification]
#[verifier::external_body]
pub struct ExRegex(regex::Regex);

/// `regex::Error`, carried through as an opaque value.
#[verifier::external_type_specification]
#[verifier::external_body]
pub struct ExRegexError(regex::Error);

/// Whether `Regex::new` accepts `source`.
pub uninterp spec fn regex_compiles(source: Seq<char>) -> bool;

/// The text that `Regex::as_str` gives for a compiled expression: the one it
/// was compiled from.
pub uninterp spec fn regex_source(re: Regex) -> Seq<char>;

/// Whether this compiled expression finds a match in `text`
/// (`Regex::is_match`). The answer belongs to the value: two expressions of
/// one source may have been built with different options.
pub uninterp spec fn regex_matches(re: Regex, text: Seq<char>) -> bool;

/// Whether the expression that `Regex::new` makes of `source` finds a match
/// in `text`.
pub uninterp spec fn regex_accepts(source: Seq<char>, text: Seq<char>) -> bool;

/// `Regex::new`: compiles `source` with the engine's default options. It
/// succeeds exactly on the sources that the engine accepts; the compiled
/// value remembers its source and answers as `regex_accepts` says for that
/// source. Nothing is claimed about which sources are accepted nor about
/// what they match.
#[verifier::external_body]
fn regex_new(source: &str) -> (out: Result<Regex, regex::Error>)
    ensures
        out is Ok <==> regex_compiles(source@),
        out matches Ok(re) ==> regex_source(re) == source@,
        out matches Ok(re) ==> forall|t: Seq<char>|
            #[trigger] regex_matches(re, t) == regex_accepts(source@, t),
{
    Regex::new(source)
}

/// `Regex::is_match`: the answer of this value on the text.
#[verifier::external_body]
fn regex_is_match(re: &Regex, text: &str) -> (out: bool)
    ensures
        out == regex_matches(*re, text@),
{
    re.is_match(text)
}

/// `Regex::as_str`: the source of the expression.
#[verifier::external_body]
fn regex_as_str(re: &Regex) -> (out: &str)
    ensures
        out@ == regex_source(*re),
{
    re.as_str()
}

/// `Clone` of `regex::Regex`: the copy has the same source and gives the
/// same answers.
pub assume_specification[ <regex::Regex as Clone>::clone ](re: &regex::Regex) -> (out: regex::Regex)
    ensures
        regex_source(out) == regex_source(*re),
        forall|t: Seq<char>| #[trigger] regex_matches(out, t) == regex_matches(*re, t),
;

/// Where in the address the user's text has to stand.
#[derive(Clone, Copy, Debug, PartialEq, Eq, Structural)]
pub enum PatternType {
    /// From the third character on: the text is wrapped and anchored.
    Third,
    /// Anywhere the user says: the text is the whole expression.
    First,
}

impl Default for PatternType {
    fn default() -> (kind: PatternType)
        ensures
            kind == PatternType::Third,
    {
        PatternType::Third
    }
}

/// Why a pattern is refused before any search starts.
#[derive(Clone, Copy, Debug, PartialEq, Eq, Structural)]
pub enum InvalidPattern {
    /// The text is empty.
    Empty,
    /// The text holds this character, which base58 leaves out (or, for `+`
    /// and `/`, never had), so nothing could match.
    Forbidden(char),
    /// The regular expression engine does not accept the expression.
    Malformed,
}

/// The characters that no pattern may hold, in the order they are looked for.
pub open spec fn forbidden_chars() -> Seq<char> {
    seq!['I', 'O', 'l', '0', '+', '/']
}

/// The first of `forbidden_chars()[from..]` that occurs in `text`.
pub open spec fn first_forbidden(text: Seq<char>, from: int) -> Option<char>
    decreases forbidden_chars().len() - from,
{
    if from < 0 || from >= forbidden_chars().len() {
        None
    } else if text.contains(forbidden_chars()[from]) {
        Some(forbidden_chars()[from])
    } else {
        first_forbidden(text, from + 1)
    }
}

/// What is wrong with raw text, if anything, before it is compiled.
pub open spec fn text_fault(text: Seq<char>) -> Option<InvalidPattern> {
    if text.len() == 0 {
        Some(InvalidPattern::Empty)
    } else {
        match first_forbidden(text, 0) {
            Some(c) => Some(InvalidPattern::Forbidden(c)),
            None => None,
        }
    }
}

/// The expression that is compiled for `text`.
pub open spec fn pattern_source(text: Seq<char>, kind: PatternType) -> Seq<char> {
    match kind {
        PatternType::Third => seq!['^', '.', '.'] + text + seq!['.', '*', '$'],
        PatternType::First => text,
    }
}

/// The expression of the older, main-network-only form of
/// [`PatternType::Third`], which spells out the leading `4`.
pub open spec fn mainnet_pattern_source(text: Seq<char>, kind: PatternType) -> Seq<char> {
    match kind {
        PatternType::Third => seq!['^', '4', '.'] + text + seq!['.', '*', '$'],
        PatternType::First => text,
    }
}

/// What becomes of raw `text` whose expression `source` the engine accepts
/// (`compiles`) or refuses.
pub open spec fn pattern_fault(text: Seq<char>, compiles: bool) -> Option<InvalidPattern> {
    if text_fault(text) is Some {
        text_fault(text)
    } else if !compiles {
        Some(InvalidPattern::Malformed)
    } else {
        None
    }
}

/// A text with a forbidden character is refused for a forbidden character
/// that it holds, whatever the engine would say of it.
pub proof fn lemma_forbidden_is_refused(text: Seq<char>, c: char, compiles: bool)
    requires
        text.contains(c),
        forbidden_chars().contains(c),
    ensures
        pattern_fault(text, compiles) matches Some(InvalidPattern::Forbidden(d))
            && forbidden_chars().contains(d) && text.contains(d),
{
    reveal_with_fuel(first_forbidden, 7);
    let i = choose|i: int| 0 <= i < forbidden_chars().len() && forbidden_chars()[i] == c;
    assert(text.len() > 0);
    assert(first_forbidden(text, 0) matches Some(d) && forbidden_chars().contains(d)
        && text.contains(d)) by {
        assert(forall|k: int|
            0 <= k < 6 ==> forbidden_chars().contains(#[trigger] forbidden_chars()[k]));
    }
}

fn contains_char(text: &str, c: char) -> (found: bool)
    ensures
        found == text@.contains(c),
{
    let n = text.unicode_len();
    let mut i: usize = 0;
    while i < n
        invariant
            i <= n == text@.len(),
            forall|k: int| 0 <= k < i ==> text@[k] != c,
        decreases n - i,
    {
        if text.get_char(i) == c {
            return true;
        }
        i += 1;
    }
    false
}

/// Screens raw text: empty text and text with a forbidden character are
/// refused, the latter with the first such character in the order
/// `I O l 0 + /`.
pub fn check_text(text: &str) -> (fault: Option<InvalidPattern>)
    ensures
        fault == text_fault(text@),
{
    reveal_with_fuel(first_forbidden, 7);
    if text.unicode_len() == 0 {
        Some(InvalidPattern::Empty)
    } else if contains_char(text, 'I') {
        Some(InvalidPattern::Forbidden('I'))
    } else if contains_char(text, 'O') {
        Some(InvalidPattern::Forbidden('O'))
    } else if contains_char(text, 'l') {
        Some(InvalidPattern::Forbidden('l'))
    } else if contains_char(text, '0') {
        Some(InvalidPattern::Forbidden('0'))
    } else if contains_char(text, '+') {
        Some(InvalidPattern::Forbidden('+'))
    } else if contains_char(text, '/') {
        Some(InvalidPattern::Forbidden('/'))
    } else {
        None
    }
}

impl PatternType {
    /// The name of the variant.
    pub fn to_text(&self) -> (name: &'static str)
        ensures
            name@ == (match *self {
                PatternType::Third => "Third"@,
                PatternType::First => "First"@,
            }),
    {
        match self {
            PatternType::Third => "Third",
            PatternType::First => "First",
        }
    }

    /// Builds the expression for `text`: `^..text.*$` for
    /// [`PatternType::Third`], `text` itself for [`PatternType::First`].
    pub fn wrap(&self, text: &str) -> (source: String)
        ensures
            source@ == pattern_source(text@, *self),
    {
        match self {
            PatternType::Third => {
                proof {
                    reveal_strlit("^..");
                    reveal_strlit(".*$");
                }
                let mut source = String::from_str("^..");
                source.append(text);
                source.append(".*$");
                assert(source@ =~= pattern_source(text@, *self));
                source
            },
            PatternType::First => String::from_str(text),
        }
    }

    /// As [`PatternType::wrap`], with `^4.` in place of `^..`.
    pub fn wrap_mainnet(&self, text: &str) -> (source: String)
        ensures
            source@ == mainnet_pattern_source(text@, *self),
    {
        match self {
            PatternType::Third => {
                proof {
                    reveal_strlit("^4.");
                    reveal_strlit(".*$");
                }
                let mut source = String::from_str("^4.");
                source.append(text);
                source.append(".*$");
                assert(source@ =~= mainnet_pattern_source(text@, *self));
                source
            },
            PatternType::First => String::from_str(text),
        }
    }
}

impl InvalidPattern {
    /// The sentence shown to the user.
    pub open spec fn message_text(self) -> Seq<char> {
        match self {
            InvalidPattern::Empty => "Address pattern must not be empty"@,
            InvalidPattern::Forbidden(c) => if c == 'I' {
                "Address pattern must not contain 'I'"@
            } else if c == 'O' {
                "Address pattern must not contain 'O'"@
            } else if c == 'l' {
                "Address pattern must not contain 'l'"@
            } else if c == '0' {
                "Address pattern must not contain '0'"@
            } else if c == '+' {
                "Address pattern must not contain '+'"@
            } else if c == '/' {
                "Address pattern must not contain '/'"@
            } else {
                "Address pattern holds a character that no address has"@
            },
            InvalidPattern::Malformed => "Regex failed to build"@,
        }
    }

    /// The sentence shown to the user.
    pub fn message(&self) -> (text: &'static str)
        ensures
            text@ == self.message_text(),
    {
        match self {
            InvalidPattern::Empty => "Address pattern must not be empty",
            InvalidPattern::Forbidden(c) => if *c == 'I' {
                "Address pattern must not contain 'I'"
            } else if *c == 'O' {
                "Address pattern must not contain 'O'"
            } else if *c == 'l' {
                "Address pattern must not contain 'l'"
            } else if *c == '0' {
                "Address pattern must not contain '0'"
            } else if *c == '+' {
                "Address pattern must not contain '+'"
            } else if *c == '/' {
                "Address pattern must not contain '/'"
            } else {
                "Address pattern holds a character that no address has"
            },
            InvalidPattern::Malformed => "Regex failed to build",
        }
    }
}

/// A compiled predicate over address text. It never changes after it was
/// made, so any number of workers may read it at once.
pub struct Pattern {
    regex: Regex,
}

impl View for Pattern {
    type V = Seq<char>;

    /// The expression that the predicate was compiled from.
    closed spec fn view(&self) -> Seq<char> {
        regex_source(self.regex)
    }
}

impl Clone for Pattern {
    /// A predicate of its own for another worker: the same expression, the
    /// same answers.
    fn clone(&self) -> (out: Pattern)
        ensures
            out@ == self@,
            forall|t: Seq<char>| #[trigger] out.accepts(t) == self.accepts(t),
            out.wf() == self.wf(),
    {
        let out = Pattern { regex: self.regex.clone() };
        proof {
            if self.wf() {
                assert forall|t: Seq<char>| #[trigger]
                    out.accepts(t) == regex_accepts(out@, t) by {
                    assert(out.accepts(t) == self.accepts(t));
                }
            }
            if out.wf() {
                assert forall|t: Seq<char>| #[trigger]
                    self.accepts(t) == regex_accepts(self@, t) by {
                    assert(out.accepts(t) == self.accepts(t));
                }
            }
        }
        out
    }
}

/// Decides what a screened text and the engine's answer for its expression
/// amount to: a fault of the text comes first, then a refusal by the engine.
/// The predicate that comes out answers as the compiled value does.
pub fn settle(fault: Option<InvalidPattern>, compiled: Result<Regex, regex::Error>) -> (out: Result<
    Pattern,
    InvalidPattern,
>)
    ensures
        match fault {
            Some(f) => out == Err::<Pattern, InvalidPattern>(f),
            None => match compiled {
                Ok(re) => out is Ok && out->Ok_0@ == regex_source(re) && forall|t: Seq<char>|
                    #[trigger] out->Ok_0.accepts(t) == regex_matches(re, t),
                Err(_) => out == Err::<Pattern, InvalidPattern>(InvalidPattern::Malformed),
            },
        },
{
    match fault {
        Some(f) => Err(f),
        None => match compiled {
            Ok(regex) => Ok(Pattern { regex }),
            Err(_) => Err(InvalidPattern::Malformed),
        },
    }
}

impl Pattern {
    /// Whether the predicate accepts `text`. The answer belongs to the
    /// compiled value.
    pub closed spec fn accepts(&self, text: Seq<char>) -> bool {
        regex_matches(self.regex, text)
    }

    /// The predicate answers as the expression that the engine makes of its
    /// source with default options. That holds of every predicate that
    /// [`Pattern::compile`] or [`Pattern::compile_mainnet`] made.
    pub open spec fn wf(&self) -> bool {
        forall|t: Seq<char>| #[trigger] self.accepts(t) == regex_accepts(self@, t)
    }

    /// Screens `text`, wraps it according to `kind` and compiles the result.
    ///
    /// A text that is empty or holds one of `I O l 0 + /` is refused without
    /// the engine being asked; otherwise the engine decides.
    pub fn compile(text: &str, kind: PatternType) -> (out: Result<Pattern, InvalidPattern>)
        ensures
            match pattern_fault(text@, regex_compiles(pattern_source(text@, kind))) {
                Some(f) => out == Err::<Pattern, InvalidPattern>(f),
                None => out is Ok && out->Ok_0@ == pattern_source(text@, kind) && out->Ok_0.wf(),
            },
            forall|c: char|
                text@.contains(c) && #[trigger] forbidden_chars().contains(c) ==> out matches Err(
                    InvalidPattern::Forbidden(_),
                ),
    {
        let fault = check_text(text);
        let source = kind.wrap(text);
        let compiled = regex_new(source.as_str());
        proof {
            assert forall|c: char|
                text@.contains(c) && #[trigger] forbidden_chars().contains(c) implies fault matches Some(
                InvalidPattern::Forbidden(_),
            ) by {
                lemma_forbidden_is_refused(text@, c, true);
            }
        }
        settle(fault, compiled)
    }

    /// As [`Pattern::compile`], wrapping with [`PatternType::wrap_mainnet`].
    pub fn compile_mainnet(text: &str, kind: PatternType) -> (out: Result<Pattern, InvalidPattern>)
        ensures
            match pattern_fault(text@, regex_compiles(mainnet_pattern_source(text@, kind))) {
                Some(f) => out == Err::<Pattern, InvalidPattern>(f),
                None => out is Ok && out->Ok_0@ == mainnet_pattern_source(text@, kind)
                    && out->Ok_0.wf(),
            },
            forall|c: char|
                text@.contains(c) && #[trigger] forbidden_chars().contains(c) ==> out matches Err(
                    InvalidPattern::Forbidden(_),
                ),
    {
        let fault = check_text(text);
        let source = kind.wrap_mainnet(text);
        let compiled = regex_new(source.as_str());
        proof {
            assert forall|c: char|
                text@.contains(c) && #[trigger] forbidden_chars().contains(c) implies fault matches Some(
                InvalidPattern::Forbidden(_),
            ) by {
                lemma_forbidden_is_refused(text@, c, true);
            }
        }
        settle(fault, compiled)
    }

    /// Whether the predicate accepts `text`. For a predicate that was
    /// compiled here, that is the answer of the engine for its source.
    pub fn matches(&self, text: &str) -> (out: bool)
        ensures
            out == self.accepts(text@),
            self.wf() ==> out == regex_accepts(self@, text@),
    {
        let out = regex_is_match(&self.regex, text);
        assert(out == self.accepts(text@));
        out
    }

    /// The expression that the predicate was compiled from.
    pub fn as_str(&self) -> (source: &str)
        ensures
            source@ == self@,
    {
        regex_as_str(&self.regex)
    }
}

/// Checks raw pattern text as the user types it. `None` means that the text
/// is most likely fine: it has no fault of its own and compiles as it
/// stands. Otherwise the sentence says what is wrong.
pub fn validate(s: &str) -> (out: Option<&'static str>)
    ensures
        match pattern_fault(s@, regex_compiles(s@)) {
            Some(f) => out is Some && out->Some_0@ == f.message_text(),
            None => out is None,
        },
{
    match settle(check_text(s), regex_new(s)) {
        Ok(_) => None,
        Err(f) => Some(f.message()),
    }
}

/// The pattern field of a window: the text as it stands, the text that was
/// last checked, and what the check said.
pub struct PatternInput {
    /// Current user-input pattern.
    pub pattern: String,
    /// The pattern that `regex_ok` and `regex_fail` speak of.
    pub old_pattern: String,
    /// Is the address pattern valid?
    pub regex_ok: bool,
    /// Why did the regex fail? Stale while `regex_ok` holds.
    pub regex_fail: &'static str,
}

impl Default for PatternInput {
    fn default() -> (input: PatternInput)
        ensures
            input.pattern@ == Seq::<char>::empty(),
            input.old_pattern@ == Seq::<char>::empty(),
            !input.regex_ok,
            input.regex_fail@ == InvalidPattern::Empty.message_text(),
    {
        PatternInput {
            pattern: String::new(),
            old_pattern: String::new(),
            regex_ok: false,
            regex_fail: InvalidPattern::Empty.message(),
        }
    }
}

impl PatternInput {
    /// Checks the text again if it changed since the last check, and only
    /// then.
    pub fn refresh(&mut self)
        ensures
            final(self).pattern == old(self).pattern,
            final(self).old_pattern@ == old(self).pattern@,
            old(self).pattern@ == old(self).old_pattern@ ==> {
                &&& final(self).regex_ok == old(self).regex_ok
                &&& final(self).regex_fail == old(self).regex_fail
            },
            old(self).pattern@ != old(self).old_pattern@ ==> match pattern_fault(
                old(self).pattern@,
                regex_compiles(old(self).pattern@),
            ) {
                Some(f) => !final(self).regex_ok && final(self).regex_fail@ == f.message_text(),
                None => final(self).regex_ok && final(self).regex_fail == old(self).regex_fail,
            },
    {
        if !(self.pattern == self.old_pattern) {
            self.old_pattern = self.pattern.clone();
            match validate(self.pattern.as_str()) {
                Some(fail) => {
                    self.regex_ok = false;
                    self.regex_fail = fail;
                },
                None => {
                    self.regex_ok = true;
                },
            }
        }
    }
}

} // verus!
