//! The rules that a message goes through.

use vstd::prelude::*;

use crate::address::{is_plain_domain, Url, UrlView};
use crate::entity::MessageEntity;
use crate::formatter::rule::{Rule, UrlHostReplaceRule, UrlQueryExcludeRule};
use crate::formatter::walk::{
    can_visit_all, for_each_url_mut, Effect, Rewrite, UrlRewrite, UrlRewriter,
};
use crate::keys::KeySet;
use crate::pattern::{regex_compiles, InvalidPattern, Regex};

verus! {

/// One rule of either sort.
pub enum FormattingRule {
    QueryExclude(UrlQueryExcludeRule),
    HostReplace(UrlHostReplaceRule),
}

impl UrlRewriter for FormattingRule {
    open spec fn rewrite(&self, url: UrlView) -> Rewrite {
        match self {
            FormattingRule::QueryExclude(rule) => rule.rewrite(url),
            FormattingRule::HostReplace(rule) => rule.rewrite(url),
        }
    }

    fn rewrite_url(&self, url: &Url) -> (rewrite: UrlRewrite) {
        match self {
            FormattingRule::QueryExclude(rule) => rule.rewrite_url(url),
            FormattingRule::HostReplace(rule) => rule.rewrite_url(url),
        }
    }
}

impl Rule for FormattingRule {
    fn apply(&self, text: &mut Vec<u16>, entities: &mut Vec<MessageEntity>) -> (effect: Effect) {
        for_each_url_mut(text, entities, self)
    }

    fn try_apply(&self, text: &mut Vec<u16>, entities: &mut Vec<MessageEntity>) -> (effect: Option<
        Effect,
    >) {
        if can_visit_all(text, entities, self) {
            Some(self.apply(text, entities))
        } else {
            None
        }
    }
}

/// The hosts of X (Twitter).
pub const TWITTER_HOSTS: &'static str = "^(?:www\\.)?(?:twitter|x)\\.com$";

/// The hosts of TikTok.
pub const TIKTOK_HOSTS: &'static str = "^(?:vm\\.|www\\.)?(?:tiktok)\\.com$";

/// The hosts of YouTube.
pub const YOUTUBE_HOSTS: &'static str = "^(?:www\\.)?(youtube\\.com|youtu\\.be)$";

/// The hosts of Instagram.
pub const INSTAGRAM_HOSTS: &'static str = "^(?:www\\.)?instagram\\.com$";

/// Whether a rule removes these parameters from the URLs of these hosts.
pub open spec fn excludes(rule: FormattingRule, hosts: Seq<char>, names: Set<Seq<char>>) -> bool {
    rule matches FormattingRule::QueryExclude(rule) && rule.host_regex@ == hosts && rule.exclude@
        == names
}

/// Whether a rule puts this host into the URLs of these hosts.
pub open spec fn replaces(rule: FormattingRule, hosts: Seq<char>, host: Seq<char>) -> bool {
    rule matches FormattingRule::HostReplace(rule) && rule.host_regex@ == hosts && rule.replace@
        == host
}

/// Whether a rule that replaces hosts puts a plain domain in their place.
pub open spec fn puts_plain_domain(rule: FormattingRule) -> bool {
    rule matches FormattingRule::HostReplace(rule) ==> is_plain_domain(rule.replace@)
}

/// The names in a list.
pub open spec fn name_set(names: Seq<&str>) -> Set<Seq<char>> {
    Set::new(
        |name: Seq<char>| exists|i: int| 0 <= i < names.len() && #[trigger] names[i]@ == name,
    )
}

proof fn lemma_name_set_push(names: Seq<&str>, name: &str)
    ensures
        name_set(names.push(name)) == name_set(names).insert(name@),
{
    let longer = names.push(name);
    assert forall|n: Seq<char>| name_set(longer).contains(n) == name_set(names).insert(
        name@,
    ).contains(n) by {
        if name_set(names).contains(n) {
            let i = choose|i: int| 0 <= i < names.len() && #[trigger] names[i]@ == n;
            assert(longer[i]@ == n);
        }
        if n == name@ {
            assert(longer[names.len() as int]@ == n);
        }
        if name_set(longer).contains(n) && n != name@ {
            let i = choose|i: int| 0 <= i < longer.len() && #[trigger] longer[i]@ == n;
            assert(names[i]@ == n);
        }
    }
    assert(name_set(longer) == name_set(names).insert(name@));
}

/// Makes a rule that removes parameters.
fn exclude(hosts: &str, names: &[&str]) -> (rule: Result<FormattingRule, InvalidPattern>)
    ensures
        rule is Ok <==> regex_compiles(hosts@),
        rule matches Ok(rule) ==> excludes(
            rule,
            hosts@,
            name_set(names@),
        ),
{
    let host_regex = match Regex::new(hosts) {
        Ok(host_regex) => host_regex,
        Err(error) => return Err(error),
    };
    let mut exclude = KeySet::new();
    let mut i: usize = 0;
    proof {
        assert(name_set(names@.take(0)) == Set::<Seq<char>>::empty());
    }
    while i < names.len()
        invariant
            i <= names@.len(),
            exclude@ == name_set(names@.take(i as int)),
        decreases names@.len() - i,
    {
        exclude.insert(names[i]);
        proof {
            lemma_name_set_push(names@.take(i as int), names@[i as int]);
            assert(names@.take(i + 1) == names@.take(i as int).push(names@[i as int]));
        }
        i += 1;
    }
    proof {
        assert(names@.take(i as int) == names@);
    }
    Ok(FormattingRule::QueryExclude(UrlQueryExcludeRule { host_regex, exclude }))
}

/// Makes a rule that replaces the host.
fn replace(hosts: &str, host: &str) -> (rule: Result<FormattingRule, InvalidPattern>)
    ensures
        rule is Ok <==> regex_compiles(hosts@),
        rule matches Ok(rule) ==> replaces(rule, hosts@, host@),
{
    match Regex::new(hosts) {
        Ok(host_regex) => Ok(
            FormattingRule::HostReplace(UrlHostReplaceRule { host_regex, replace: host.to_owned() }),
        ),
        Err(error) => Err(error),
    }
}

/// Whether these are the rules for the sites that the bot knows: trackers are dropped from the URLs
/// of X, YouTube and Instagram, and those of X and TikTok get friendlier hosts.
pub open spec fn are_known_rules(rules: Seq<FormattingRule>) -> bool {
    &&& rules.len() == 5
    &&& excludes(rules[0], TWITTER_HOSTS@, set!["s"@, "t"@])
    &&& replaces(rules[1], TWITTER_HOSTS@, "i.fixupx.com"@)
    &&& replaces(rules[2], TIKTOK_HOSTS@, "fixtiktok.com"@)
    &&& excludes(rules[3], YOUTUBE_HOSTS@, set!["si"@, "pp"@])
    &&& excludes(rules[4], INSTAGRAM_HOSTS@, set!["igsh"@])
}

/// The rules for the sites that the bot knows, in the order in which they apply.
pub fn default_rules() -> (rules: Result<Vec<FormattingRule>, InvalidPattern>)
    ensures
        rules is Ok <==> regex_compiles(TWITTER_HOSTS@) && regex_compiles(TIKTOK_HOSTS@)
            && regex_compiles(YOUTUBE_HOSTS@) && regex_compiles(INSTAGRAM_HOSTS@),
        rules matches Ok(rules) ==> {
            &&& are_known_rules(rules@)
            &&& rules@.len() == 5
            &&& excludes(rules@[0], TWITTER_HOSTS@, set!["s"@, "t"@])
            &&& replaces(rules@[1], TWITTER_HOSTS@, "i.fixupx.com"@)
            &&& replaces(rules@[2], TIKTOK_HOSTS@, "fixtiktok.com"@)
            &&& excludes(rules@[3], YOUTUBE_HOSTS@, set!["si"@, "pp"@])
            &&& excludes(rules@[4], INSTAGRAM_HOSTS@, set!["igsh"@])
            &&& forall|i: int| 0 <= i < 5 ==> puts_plain_domain(#[trigger] rules@[i])
        },
{
    proof {
        let none = Seq::<&str>::empty();
        assert(name_set(none) == Set::<Seq<char>>::empty());
        lemma_name_set_push(none, "s");
        lemma_name_set_push(none.push("s"), "t");
        lemma_name_set_push(none, "si");
        lemma_name_set_push(none.push("si"), "pp");
        lemma_name_set_push(none, "igsh");
        assert(["s", "t"]@ == none.push("s").push("t"));
        assert(["si", "pp"]@ == none.push("si").push("pp"));
        assert(["igsh"]@ == none.push("igsh"));
        reveal_strlit("i.fixupx.com");
        reveal_strlit("fixtiktok.com");
        assert(is_plain_domain("i.fixupx.com"@));
        assert(is_plain_domain("fixtiktok.com"@));
    }
    let mut rules: Vec<FormattingRule> = Vec::new();
    match exclude(TWITTER_HOSTS, &["s", "t"]) {
        Ok(rule) => rules.push(rule),
        Err(error) => return Err(error),
    }
    match replace(TWITTER_HOSTS, "i.fixupx.com") {
        Ok(rule) => rules.push(rule),
        Err(error) => return Err(error),
    }
    match replace(TIKTOK_HOSTS, "fixtiktok.com") {
        Ok(rule) => rules.push(rule),
        Err(error) => return Err(error),
    }
    match exclude(YOUTUBE_HOSTS, &["si", "pp"]) {
        Ok(rule) => rules.push(rule),
        Err(error) => return Err(error),
    }
    match exclude(INSTAGRAM_HOSTS, &["igsh"]) {
        Ok(rule) => rules.push(rule),
        Err(error) => return Err(error),
    }
    Ok(rules)
}

/// What it means for a rule to be one of those of the bot: a rule that excludes parameters takes
/// the hosts of one pattern and drops exactly some names, and one that replaces hosts takes the
/// hosts of one pattern and puts one host in their place.
pub proof fn law_rules_are_told_apart(
    rule: FormattingRule,
    hosts: Seq<char>,
    names: Set<Seq<char>>,
    host: Seq<char>,
)
    ensures
        excludes(rule, hosts, names) <==> (rule matches FormattingRule::QueryExclude(excluding)
            && excluding.host_regex@ == hosts && excluding.exclude@ == names),
        replaces(rule, hosts, host) <==> (rule matches FormattingRule::HostReplace(replacing)
            && replacing.host_regex@ == hosts && replacing.replace@ == host),
{
}

/// What the rules of the bot are, one by one: which hosts each is for, and either which parameters
/// it drops, and no others, or which host it puts in their place.
pub proof fn law_rules_of_known_sites(rules: Seq<FormattingRule>, name: Seq<char>)
    requires
        are_known_rules(rules),
    ensures
        rules.len() == 5,
        rules[0] matches FormattingRule::QueryExclude(rule) && rule.host_regex@
            == "^(?:www\\.)?(?:twitter|x)\\.com$"@ && (rule.exclude@.contains(name) <==> name == "s"@
            || name == "t"@),
        rules[1] matches FormattingRule::HostReplace(rule) && rule.host_regex@
            == "^(?:www\\.)?(?:twitter|x)\\.com$"@ && rule.replace@ == "i.fixupx.com"@,
        rules[2] matches FormattingRule::HostReplace(rule) && rule.host_regex@
            == "^(?:vm\\.|www\\.)?(?:tiktok)\\.com$"@ && rule.replace@ == "fixtiktok.com"@,
        rules[3] matches FormattingRule::QueryExclude(rule) && rule.host_regex@
            == "^(?:www\\.)?(youtube\\.com|youtu\\.be)$"@ && (rule.exclude@.contains(name) <==> name
            == "si"@ || name == "pp"@),
        rules[4] matches FormattingRule::QueryExclude(rule) && rule.host_regex@
            == "^(?:www\\.)?instagram\\.com$"@ && (rule.exclude@.contains(name) <==> name
            == "igsh"@),
{
}

} // verus!
