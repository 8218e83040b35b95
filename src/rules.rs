use vstd::prelude::*;

use crate::message::Message;
use crate::text::opt_view;

verus! {

/// Whether `regex::Regex::new` accepts `pattern`.
pub uninterp spec fn pattern_compiles(pattern: Seq<char>) -> bool;

/// Whether the regex compiled from `pattern` matches somewhere in `text`
/// (an unanchored search).
pub uninterp spec fn pattern_finds(pattern: Seq<char>, text: Seq<char>) -> bool;

#[verifier::external_type_specification]
#[verifier::external_body]
pub struct ExRegex(regex::Regex);

#[verifier::external_type_specification]
#[verifier::external_body]
pub struct ExRegexError(regex::Error);

/// Relies on `regex::Regex::new`: it returns `Ok` exactly for the patterns
/// that it accepts, and the result depends on the pattern alone.
#[verifier::external_body]
fn regex_new(pattern: &str) -> (r: Result<regex::Regex, regex::Error>)
    ensures
        r is Ok <==> pattern_compiles(pattern@),
{
    regex::Regex::new(pattern)
}

/// A declarative move rule: a destination folder and three optional lists
/// of patterns, tested against the sender, the subject and the text body.
#[derive(Debug, Clone, Default)]
pub struct Rule {
    pub target_folder: String,
    pub from: Option<Vec<String>>,
    pub title: Option<Vec<String>>,
    pub body: Option<Vec<String>>,
}

/// One entry of the rule list of a configuration.
#[derive(Debug, Clone, Default)]
pub struct RuleWrapper {
    pub rule: Rule,
}

/// The rules of one run and the number of most recent messages to check.
#[derive(Debug, Clone, Default)]
pub struct RulesConfig {
    pub messages_to_check: u32,
    pub rules: Vec<RuleWrapper>,
}

/// The spam filter: one unnamed rule whose three lists are always present.
#[derive(Debug, Clone, Default)]
pub struct SpamFilterSettings {
    pub from_regular_expressions: Vec<String>,
    pub title_regular_expressions: Vec<String>,
    pub body_regular_expressions: Vec<String>,
}

/// A pattern that does not compile.
#[derive(Debug, Clone)]
pub struct InvalidPattern {
    pub pattern: String,
}

/// The three pattern lists of a rule, as character sequences.
pub struct PatternSets {
    pub from: Option<Seq<Seq<char>>>,
    pub title: Option<Seq<Seq<char>>>,
    pub body: Option<Seq<Seq<char>>>,
}

pub open spec fn strings_view(v: Vec<String>) -> Seq<Seq<char>> {
    v@.map_values(|s: String| s@)
}

pub open spec fn opt_strings_view(v: Option<Vec<String>>) -> Option<Seq<Seq<char>>> {
    match v {
        Some(l) => Some(strings_view(l)),
        None => None,
    }
}

/// Some pattern of the list matches the text.
pub open spec fn any_pattern_finds(patterns: Seq<Seq<char>>, text: Seq<char>) -> bool {
    exists|i: int| 0 <= i < patterns.len() && #[trigger] pattern_finds(patterns[i], text)
}

/// Every pattern of the list compiles.
pub open spec fn all_compile(patterns: Seq<Seq<char>>) -> bool {
    forall|i: int| 0 <= i < patterns.len() ==> #[trigger] pattern_compiles(patterns[i])
}

/// A category matches when its list is present, the field is present, and
/// some pattern of the list matches the field.
pub open spec fn category_matches(patterns: Option<Seq<Seq<char>>>, field: Option<Seq<char>>) -> bool {
    match (patterns, field) {
        (Some(ps), Some(text)) => any_pattern_finds(ps, text),
        _ => false,
    }
}

pub open spec fn category_compiles(patterns: Option<Seq<Seq<char>>>) -> bool {
    match patterns {
        Some(ps) => all_compile(ps),
        None => true,
    }
}

/// The matching rule: any present category matches (sender, subject, body).
/// A message without a text body never matches by body.
pub open spec fn sets_match(sets: PatternSets, message: Message) -> bool {
    ||| category_matches(sets.from, Some(message.from@))
    ||| category_matches(sets.title, Some(message.subject@))
    ||| category_matches(sets.body, opt_view(message.content))
}

pub open spec fn sets_compile(sets: PatternSets) -> bool {
    &&& category_compiles(sets.from)
    &&& category_compiles(sets.title)
    &&& category_compiles(sets.body)
}

impl Rule {
    pub open spec fn patterns(&self) -> PatternSets {
        PatternSets {
            from: opt_strings_view(self.from),
            title: opt_strings_view(self.title),
            body: opt_strings_view(self.body),
        }
    }
}

impl SpamFilterSettings {
    pub open spec fn patterns(&self) -> PatternSets {
        PatternSets {
            from: Some(strings_view(self.from_regular_expressions)),
            title: Some(strings_view(self.title_regular_expressions)),
            body: Some(strings_view(self.body_regular_expressions)),
        }
    }
}

/// Whether `rule` matches `message`.
pub open spec fn rule_matches(message: Message, rule: Rule) -> bool {
    sets_match(rule.patterns(), message)
}

/// Whether every pattern of `rule` compiles.
pub open spec fn rule_compiles(rule: Rule) -> bool {
    sets_compile(rule.patterns())
}

/// A compiled regular expression together with its source text.
pub struct Pattern {
    source: String,
    regex: regex::Regex,
}

impl View for Pattern {
    type V = Seq<char>;

    closed spec fn view(&self) -> Seq<char> {
        self.source@
    }
}

pub open spec fn patterns_view(v: Seq<Pattern>) -> Seq<Seq<char>> {
    v.map_values(|p: Pattern| p@)
}

pub open spec fn opt_patterns_view(v: Option<Vec<Pattern>>) -> Option<Seq<Seq<char>>> {
    match v {
        Some(l) => Some(patterns_view(l@)),
        None => None,
    }
}

impl Pattern {
    /// Compiles `source`; fails exactly when the regex engine refuses it.
    pub fn new(source: &String) -> (r: Result<Pattern, InvalidPattern>)
        ensures
            r is Ok <==> pattern_compiles(source@),
            r matches Ok(p) ==> p@ == source@,
            r matches Err(e) ==> e.pattern@ == source@,
    {
        match regex_new(source.as_str()) {
            Ok(regex) => Ok(Pattern { source: source.clone(), regex }),
            Err(_) => Err(InvalidPattern { pattern: source.clone() }),
        }
    }

    /// Relies on `regex::Regex::is_match` (an unanchored search). Every
    /// `Pattern` is built by `Pattern::new`, whose `regex` was compiled from
    /// `source`, and both fields are private.
    #[verifier::external_body]
    fn found_in(&self, text: &str) -> (r: bool)
        ensures
            r == pattern_finds(self@, text@),
    {
        self.regex.is_match(text)
    }
}

/// Compiles each pattern of the list, in order; fails on the first one that
/// does not compile.
pub fn compile_patterns(patterns: &Vec<String>) -> (r: Result<Vec<Pattern>, InvalidPattern>)
    ensures
        r is Ok <==> all_compile(strings_view(*patterns)),
        r matches Ok(ps) ==> patterns_view(ps@) == strings_view(*patterns),
        r matches Err(e) ==> exists|i: int|
            0 <= i < patterns@.len() && #[trigger] patterns@[i]@ == e.pattern@
                && !pattern_compiles(patterns@[i]@)
                && forall|j: int| 0 <= j < i ==> pattern_compiles(#[trigger] patterns@[j]@),
{
    let mut compiled: Vec<Pattern> = Vec::new();
    for i in 0..patterns.len()
        invariant
            compiled@.len() == i,
            forall|j: int| 0 <= j < i ==> #[trigger] compiled@[j]@ == patterns@[j]@,
            forall|j: int| 0 <= j < i ==> pattern_compiles(#[trigger] patterns@[j]@),
    {
        match Pattern::new(&patterns[i]) {
            Ok(p) => compiled.push(p),
            Err(e) => {
                assert(!all_compile(strings_view(*patterns))) by {
                    assert(strings_view(*patterns)[i as int] == patterns@[i as int]@);
                }
                return Err(e);
            },
        }
    }
    assert(patterns_view(compiled@) =~= strings_view(*patterns));
    Ok(compiled)
}

fn compile_optional(patterns: &Option<Vec<String>>) -> (r: Result<Option<Vec<Pattern>>, InvalidPattern>)
    ensures
        r is Ok <==> category_compiles(opt_strings_view(*patterns)),
        r matches Ok(ps) ==> opt_patterns_view(ps) == opt_strings_view(*patterns),
{
    match patterns {
        Some(list) => match compile_patterns(list) {
            Ok(ps) => Ok(Some(ps)),
            Err(e) => Err(e),
        },
        None => Ok(None),
    }
}

/// Whether some pattern of the list matches `text`.
fn match_many_strings(patterns: &Vec<Pattern>, text: &str) -> (r: bool)
    ensures
        r == any_pattern_finds(patterns_view(patterns@), text@),
{
    for i in 0..patterns.len()
        invariant
            forall|j: int| 0 <= j < i ==> !pattern_finds(#[trigger] patterns_view(patterns@)[j], text@),
    {
        if patterns[i].found_in(text) {
            assert(pattern_finds(patterns_view(patterns@)[i as int], text@));
            return true;
        }
    }
    false
}

fn category_found(patterns: &Option<Vec<Pattern>>, field: Option<&String>) -> (r: bool)
    ensures
        r == category_matches(
            opt_patterns_view(*patterns),
            match field {
                Some(s) => Some(s@),
                None => None,
            },
        ),
{
    match (patterns, field) {
        (Some(ps), Some(text)) => match_many_strings(ps, text.as_str()),
        _ => false,
    }
}

/// A rule whose patterns were compiled once, for use across a whole batch.
pub struct CompiledRule {
    target_folder: String,
    from: Option<Vec<Pattern>>,
    title: Option<Vec<Pattern>>,
    body: Option<Vec<Pattern>>,
}

impl CompiledRule {
    pub closed spec fn patterns(&self) -> PatternSets {
        PatternSets {
            from: opt_patterns_view(self.from),
            title: opt_patterns_view(self.title),
            body: opt_patterns_view(self.body),
        }
    }

    pub closed spec fn target(&self) -> Seq<char> {
        self.target_folder@
    }

    /// The folder that matching messages go to.
    pub fn target_folder(&self) -> (r: &String)
        ensures
            r@ == self.target(),
    {
        &self.target_folder
    }

    /// Compiles every pattern of `rule`; fails when one does not compile.
    pub fn compile(rule: &Rule) -> (r: Result<CompiledRule, InvalidPattern>)
        ensures
            r is Ok <==> rule_compiles(*rule),
            r matches Ok(c) ==> c.patterns() == rule.patterns() && c.target() == rule.target_folder@,
    {
        let from = match compile_optional(&rule.from) {
            Ok(p) => p,
            Err(e) => return Err(e),
        };
        let title = match compile_optional(&rule.title) {
            Ok(p) => p,
            Err(e) => return Err(e),
        };
        let body = match compile_optional(&rule.body) {
            Ok(p) => p,
            Err(e) => return Err(e),
        };
        Ok(CompiledRule { target_folder: rule.target_folder.clone(), from, title, body })
    }

    /// Compiles the three lists of the spam filter; the destination is `target_folder`.
    pub fn compile_spam_filter(settings: &SpamFilterSettings, target_folder: &String) -> (r: Result<
        CompiledRule,
        InvalidPattern,
    >)
        ensures
            r is Ok <==> sets_compile(settings.patterns()),
            r matches Ok(c) ==> c.patterns() == settings.patterns() && c.target() == target_folder@,
    {
        let from = match compile_patterns(&settings.from_regular_expressions) {
            Ok(p) => p,
            Err(e) => return Err(e),
        };
        let title = match compile_patterns(&settings.title_regular_expressions) {
            Ok(p) => p,
            Err(e) => return Err(e),
        };
        let body = match compile_patterns(&settings.body_regular_expressions) {
            Ok(p) => p,
            Err(e) => return Err(e),
        };
        Ok(
            CompiledRule {
                target_folder: target_folder.clone(),
                from: Some(from),
                title: Some(title),
                body: Some(body),
            },
        )
    }

    /// Whether this rule matches `message`.
    pub fn matches(&self, message: &Message) -> (r: bool)
        ensures
            r == sets_match(self.patterns(), *message),
    {
        let from_matches = category_found(&self.from, Some(&message.from));
        let title_matches = category_found(&self.title, Some(&message.subject));
        let body_matches = category_found(&self.body, message.content.as_ref());
        from_matches || title_matches || body_matches
    }
}

/// Whether `rule` matches `message`: some pattern of a present list matches
/// its field (sender, subject, text body), by unanchored regex search. A
/// rule with a pattern that does not compile matches nothing.
pub fn check_message_matches(message: &Message, rule: &Rule) -> (r: bool)
    ensures
        rule_compiles(*rule) ==> r == rule_matches(*message, *rule),
        !rule_compiles(*rule) ==> !r,
{
    match CompiledRule::compile(rule) {
        Ok(compiled) => compiled.matches(message),
        Err(_) => false,
    }
}

/// Whether the spam filter matches `message`; a filter with a pattern that
/// does not compile matches nothing.
pub fn check_message_spam(message: &Message, spam_filter_settings: &SpamFilterSettings) -> (r: bool)
    ensures
        sets_compile(spam_filter_settings.patterns()) ==> r == sets_match(
            spam_filter_settings.patterns(),
            *message,
        ),
        !sets_compile(spam_filter_settings.patterns()) ==> !r,
{
    let target = String::new();
    match CompiledRule::compile_spam_filter(spam_filter_settings, &target) {
        Ok(compiled) => compiled.matches(message),
        Err(_) => false,
    }
}

/// A rule with no pattern list never matches.
pub proof fn lemma_rule_without_patterns_never_matches(message: Message, rule: Rule)
    requires
        rule.from is None,
        rule.title is None,
        rule.body is None,
    ensures
        !rule_matches(message, rule),
{
}

} // verus!
