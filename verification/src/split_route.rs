//! Split routing: the rule sets that send local, regional and foreign
//! traffic either directly or through the proxy.

use vstd::prelude::*;
use crate::text::{same_text, texts};

verus! {

/// The region whose traffic goes direct.
#[derive(Debug, Clone, Copy, PartialEq, Eq, Structural)]
pub enum SplitRouteRules {
    /// Russian services go direct, foreign ones through the proxy.
    Ru,
    /// Foreign services go direct.
    Eu,
}

/// The label of a rule set, as the preference stores it.
pub open spec fn label_spec(r: SplitRouteRules) -> Seq<char> {
    match r {
        SplitRouteRules::Ru => "Россия"@,
        SplitRouteRules::Eu => "Европа"@,
    }
}

/// The rule set that a stored label selects: `Европа` selects the
/// European set, every other text the Russian one.
pub open spec fn parse_spec(s: Seq<char>) -> SplitRouteRules {
    if s == "Европа"@ {
        SplitRouteRules::Eu
    } else {
        SplitRouteRules::Ru
    }
}

/// The rules that keep loopback and private networks direct.
pub open spec fn local_rules() -> Seq<Seq<char>> {
    seq![
        "IP-CIDR,127.0.0.1/8,DIRECT,no-resolve"@,
        "IP-CIDR,192.168.0.0/16,DIRECT,no-resolve"@,
        "IP-CIDR,10.0.0.0/8,DIRECT,no-resolve"@,
        "IP-CIDR,172.16.0.0/12,DIRECT,no-resolve"@,
    ]
}

/// The rules of a region.
pub open spec fn region_rules(r: SplitRouteRules) -> Seq<Seq<char>> {
    match r {
        SplitRouteRules::Ru => seq![
            "GEOIP,RU,DIRECT"@,
            "GEOSITE,yandex,DIRECT"@,
            "GEOSITE,mailru,DIRECT"@,
            "GEOSITE,google,AUTO"@,
            "GEOSITE,azure,AUTO"@,
            "GEOSITE,microsoft,AUTO"@,
            "GEOSITE,github,AUTO"@,
            "GEOSITE,youtube,AUTO"@,
            "GEOSITE,telegram,AUTO"@,
            "GEOSITE,twitter,AUTO"@,
            "GEOSITE,netflix,AUTO"@,
            "GEOSITE,spotify,AUTO"@,
        ],
        SplitRouteRules::Eu => seq![
            "GEOSITE,google,DIRECT"@,
            "GEOSITE,azure,DIRECT"@,
            "GEOSITE,microsoft,DIRECT"@,
            "GEOSITE,github,DIRECT"@,
            "GEOSITE,youtube,DIRECT"@,
            "GEOSITE,telegram,DIRECT"@,
            "GEOSITE,twitter,DIRECT"@,
            "GEOSITE,netflix,DIRECT"@,
            "GEOSITE,spotify,DIRECT"@,
        ],
    }
}

/// The full rule list of a region: the local rules, then the region's.
pub open spec fn rule_set(r: SplitRouteRules) -> Seq<Seq<char>> {
    local_rules() + region_rules(r)
}

/// Appends an owned copy of `s`.
fn push_text(v: &mut Vec<String>, s: &str)
    ensures
        texts(final(v)@) == texts(old(v)@).push(s@),
{
    v.push(s.to_owned());
    assert(texts(v@) =~= texts(old(v)@).push(s@));
}

impl SplitRouteRules {
    /// The labels of the rule sets, in the order the selector offers them.
    pub const SPEC: [&'static str; 2] = ["Россия", "Европа"];

    /// The rule set that a stored label selects.
    pub fn parse(s: &str) -> (r: Self)
        ensures
            r == parse_spec(s@),
    {
        if same_text(s, "Европа") {
            SplitRouteRules::Eu
        } else {
            SplitRouteRules::Ru
        }
    }

    /// The label of this rule set.
    pub fn as_ref(&self) -> (r: &'static str)
        ensures
            r@ == label_spec(*self),
    {
        match self {
            SplitRouteRules::Ru => "Россия",
            SplitRouteRules::Eu => "Европа",
        }
    }

    /// The catch-all rule that sends the rest through the automatic group.
    pub fn match_rule() -> (r: Vec<String>)
        ensures
            texts(r@) == seq!["MATCH,AUTO"@],
    {
        let mut r: Vec<String> = Vec::new();
        push_text(&mut r, "MATCH,AUTO");
        assert(texts(r@) =~= seq!["MATCH,AUTO"@]);
        r
    }

    /// The routing rules of this region.
    pub fn as_rules(&self) -> (r: Vec<String>)
        ensures
            texts(r@) == rule_set(*self),
    {
        let mut r: Vec<String> = Vec::new();
        push_text(&mut r, "IP-CIDR,127.0.0.1/8,DIRECT,no-resolve");
        push_text(&mut r, "IP-CIDR,192.168.0.0/16,DIRECT,no-resolve");
        push_text(&mut r, "IP-CIDR,10.0.0.0/8,DIRECT,no-resolve");
        push_text(&mut r, "IP-CIDR,172.16.0.0/12,DIRECT,no-resolve");
        match self {
            SplitRouteRules::Ru => {
                push_text(&mut r, "GEOIP,RU,DIRECT");
                push_text(&mut r, "GEOSITE,yandex,DIRECT");
                push_text(&mut r, "GEOSITE,mailru,DIRECT");
                push_text(&mut r, "GEOSITE,google,AUTO");
                push_text(&mut r, "GEOSITE,azure,AUTO");
                push_text(&mut r, "GEOSITE,microsoft,AUTO");
                push_text(&mut r, "GEOSITE,github,AUTO");
                push_text(&mut r, "GEOSITE,youtube,AUTO");
                push_text(&mut r, "GEOSITE,telegram,AUTO");
                push_text(&mut r, "GEOSITE,twitter,AUTO");
                push_text(&mut r, "GEOSITE,netflix,AUTO");
                push_text(&mut r, "GEOSITE,spotify,AUTO");
            },
            SplitRouteRules::Eu => {
                push_text(&mut r, "GEOSITE,google,DIRECT");
                push_text(&mut r, "GEOSITE,azure,DIRECT");
                push_text(&mut r, "GEOSITE,microsoft,DIRECT");
                push_text(&mut r, "GEOSITE,github,DIRECT");
                push_text(&mut r, "GEOSITE,youtube,DIRECT");
                push_text(&mut r, "GEOSITE,telegram,DIRECT");
                push_text(&mut r, "GEOSITE,twitter,DIRECT");
                push_text(&mut r, "GEOSITE,netflix,DIRECT");
                push_text(&mut r, "GEOSITE,spotify,DIRECT");
            },
        }
        assert(texts(r@) =~= rule_set(*self));
        r
    }
}

/// The routing rules handed to the core: the rules that come first, then
/// the learned ones, then the catch-all rule last.
pub fn routing_rules(first: Vec<String>, learned: Vec<String>) -> (r: Vec<String>)
    ensures
        texts(r@) == texts(first@) + texts(learned@) + seq!["MATCH,AUTO"@],
        r@.len() == first@.len() + learned@.len() + 1,
        r@.last()@ == "MATCH,AUTO"@,
{
    let mut r = first;
    let mut rest = learned;
    let ghost f = r@;
    let ghost l = rest@;
    r.append(&mut rest);
    assert(r@ == f + l);
    assert(texts(f + l) =~= texts(f) + texts(l));
    let ghost before = r@;
    push_text(&mut r, "MATCH,AUTO");
    assert(texts(before).push("MATCH,AUTO"@) =~= texts(f) + texts(l) + seq!["MATCH,AUTO"@]);
    assert(texts(r@).last() == r@.last()@);
    r
}

impl Default for SplitRouteRules {
    fn default() -> (r: Self)
        ensures
            r == SplitRouteRules::Ru,
    {
        SplitRouteRules::Ru
    }
}

impl core::str::FromStr for SplitRouteRules {
    type Err = ();

    fn from_str(s: &str) -> (r: Result<Self, ()>)
        ensures
            r == Ok::<SplitRouteRules, ()>(parse_spec(s@)),
    {
        Ok(Self::parse(s))
    }
}

/// Reading back the label of a rule set selects that rule set.
pub proof fn lemma_label_round_trip(r: SplitRouteRules)
    ensures
        parse_spec(label_spec(r)) == r,
{
    reveal_strlit("Россия");
    reveal_strlit("Европа");
    assert(label_spec(SplitRouteRules::Ru) != "Европа"@) by {
        assert(label_spec(SplitRouteRules::Ru)[0] != "Европа"@[0]);
    }
}

/// Every rule set keeps loopback and private networks direct first.
pub proof fn lemma_local_rules_first(r: SplitRouteRules)
    ensures
        rule_set(r).subrange(0, 4) == local_rules(),
{
    assert(rule_set(r).subrange(0, 4) =~= local_rules());
}

/// Whether `s` starts with `p`.
pub open spec fn text_starts(s: Seq<char>, p: Seq<char>) -> bool {
    p.len() <= s.len() && s.subrange(0, p.len() as int) == p
}

/// Whether `s` ends with `p`.
pub open spec fn text_ends(s: Seq<char>, p: Seq<char>) -> bool {
    p.len() <= s.len() && s.subrange(s.len() - p.len(), s.len() as int) == p
}

/// Every rule set holds no rule twice and no catch-all rule, which
/// [`SplitRouteRules::match_rule`] keeps apart; the European set sends
/// nothing through the automatic group, and the Russian set sends Russian
/// addresses direct.
pub proof fn lemma_rule_sets_well_formed(r: SplitRouteRules)
    ensures
        forall|i: int, j: int| 0 <= i < j < rule_set(r).len() ==> rule_set(r)[i] != rule_set(r)[j],
        forall|i: int| 0 <= i < rule_set(r).len() ==> !text_starts(#[trigger] rule_set(r)[i], "MATCH"@),
        r == SplitRouteRules::Eu ==> forall|i: int|
            0 <= i < rule_set(r).len() ==> !text_ends(#[trigger] rule_set(r)[i], ",AUTO"@),
        r == SplitRouteRules::Ru ==> rule_set(r).contains("GEOIP,RU,DIRECT"@),
{
    reveal_strlit("IP-CIDR,127.0.0.1/8,DIRECT,no-resolve");
    reveal_strlit("IP-CIDR,192.168.0.0/16,DIRECT,no-resolve");
    reveal_strlit("IP-CIDR,10.0.0.0/8,DIRECT,no-resolve");
    reveal_strlit("IP-CIDR,172.16.0.0/12,DIRECT,no-resolve");
    reveal_strlit("GEOIP,RU,DIRECT");
    reveal_strlit("GEOSITE,yandex,DIRECT");
    reveal_strlit("GEOSITE,mailru,DIRECT");
    reveal_strlit("GEOSITE,google,AUTO");
    reveal_strlit("GEOSITE,azure,AUTO");
    reveal_strlit("GEOSITE,microsoft,AUTO");
    reveal_strlit("GEOSITE,github,AUTO");
    reveal_strlit("GEOSITE,youtube,AUTO");
    reveal_strlit("GEOSITE,telegram,AUTO");
    reveal_strlit("GEOSITE,twitter,AUTO");
    reveal_strlit("GEOSITE,netflix,AUTO");
    reveal_strlit("GEOSITE,spotify,AUTO");
    reveal_strlit("GEOSITE,google,DIRECT");
    reveal_strlit("GEOSITE,azure,DIRECT");
    reveal_strlit("GEOSITE,microsoft,DIRECT");
    reveal_strlit("GEOSITE,github,DIRECT");
    reveal_strlit("GEOSITE,youtube,DIRECT");
    reveal_strlit("GEOSITE,telegram,DIRECT");
    reveal_strlit("GEOSITE,twitter,DIRECT");
    reveal_strlit("GEOSITE,netflix,DIRECT");
    reveal_strlit("GEOSITE,spotify,DIRECT");
    reveal_strlit("MATCH");
    reveal_strlit(",AUTO");
    let rs = rule_set(r);
    assert forall|i: int| 0 <= i < rs.len() implies !text_starts(#[trigger] rs[i], "MATCH"@) by {
        if text_starts(rs[i], "MATCH"@) {
            assert(rs[i].subrange(0, 5)[0] == rs[i][0]);
        }
    }
    if r == SplitRouteRules::Eu {
        assert forall|i: int| 0 <= i < rs.len() implies !text_ends(#[trigger] rs[i], ",AUTO"@) by {
            if text_ends(rs[i], ",AUTO"@) {
                let n = rs[i].len();
                assert(rs[i].subrange(n - 5, n as int)[4] == rs[i][n - 1]);
            }
        }
    } else {
        assert(rs[4] == "GEOIP,RU,DIRECT"@);
    }
    assert forall|i: int, j: int| 0 <= i < j < rs.len() implies rs[i] != rs[j] by {
        if rs[i] == rs[j] {
            assert(rs[i].len() == rs[j].len());
            assert(rs[i][8] == rs[j][8]);
            assert(rs[i][9] == rs[j][9]);
            assert(rs[i][10] == rs[j][10]);
            assert(rs[i][rs[i].len() - 1] == rs[j][rs[j].len() - 1]);
        }
    }
}

/// The rules that the Russian set sends direct: the local networks, Russian
/// addresses, and the yandex and mailru services.
pub open spec fn russian_direct() -> Seq<Seq<char>> {
    seq![
        "IP-CIDR,127.0.0.1/8,DIRECT,no-resolve"@,
        "IP-CIDR,192.168.0.0/16,DIRECT,no-resolve"@,
        "IP-CIDR,10.0.0.0/8,DIRECT,no-resolve"@,
        "IP-CIDR,172.16.0.0/12,DIRECT,no-resolve"@,
        "GEOIP,RU,DIRECT"@,
        "GEOSITE,yandex,DIRECT"@,
        "GEOSITE,mailru,DIRECT"@,
    ]
}

/// Where each region sends the foreign services: the Russian set sends
/// google, azure, microsoft, github, youtube, telegram, twitter, netflix and
/// spotify through the automatic group and nothing but its direct rules
/// elsewhere; the European set sends those services direct.
pub proof fn lemma_region_routes()
    ensures
        forall|i: int|
            0 <= i < rule_set(SplitRouteRules::Ru).len() && !text_ends(
                #[trigger] rule_set(SplitRouteRules::Ru)[i],
                ",AUTO"@,
            ) ==> russian_direct().contains(rule_set(SplitRouteRules::Ru)[i]),
        rule_set(SplitRouteRules::Ru).contains("GEOSITE,google,AUTO"@),
        rule_set(SplitRouteRules::Ru).contains("GEOSITE,azure,AUTO"@),
        rule_set(SplitRouteRules::Ru).contains("GEOSITE,microsoft,AUTO"@),
        rule_set(SplitRouteRules::Ru).contains("GEOSITE,github,AUTO"@),
        rule_set(SplitRouteRules::Ru).contains("GEOSITE,youtube,AUTO"@),
        rule_set(SplitRouteRules::Ru).contains("GEOSITE,telegram,AUTO"@),
        rule_set(SplitRouteRules::Ru).contains("GEOSITE,twitter,AUTO"@),
        rule_set(SplitRouteRules::Ru).contains("GEOSITE,netflix,AUTO"@),
        rule_set(SplitRouteRules::Ru).contains("GEOSITE,spotify,AUTO"@),
        rule_set(SplitRouteRules::Eu).contains("GEOSITE,google,DIRECT"@),
        rule_set(SplitRouteRules::Eu).contains("GEOSITE,azure,DIRECT"@),
        rule_set(SplitRouteRules::Eu).contains("GEOSITE,microsoft,DIRECT"@),
        rule_set(SplitRouteRules::Eu).contains("GEOSITE,github,DIRECT"@),
        rule_set(SplitRouteRules::Eu).contains("GEOSITE,youtube,DIRECT"@),
        rule_set(SplitRouteRules::Eu).contains("GEOSITE,telegram,DIRECT"@),
        rule_set(SplitRouteRules::Eu).contains("GEOSITE,twitter,DIRECT"@),
        rule_set(SplitRouteRules::Eu).contains("GEOSITE,netflix,DIRECT"@),
        rule_set(SplitRouteRules::Eu).contains("GEOSITE,spotify,DIRECT"@),
{
    reveal_strlit("GEOSITE,google,AUTO");
    reveal_strlit("GEOSITE,azure,AUTO");
    reveal_strlit("GEOSITE,microsoft,AUTO");
    reveal_strlit("GEOSITE,github,AUTO");
    reveal_strlit("GEOSITE,youtube,AUTO");
    reveal_strlit("GEOSITE,telegram,AUTO");
    reveal_strlit("GEOSITE,twitter,AUTO");
    reveal_strlit("GEOSITE,netflix,AUTO");
    reveal_strlit("GEOSITE,spotify,AUTO");
    reveal_strlit(",AUTO");
    let ru = rule_set(SplitRouteRules::Ru);
    let eu = rule_set(SplitRouteRules::Eu);
    let d = russian_direct();
    assert forall|i: int| 0 <= i < ru.len() && !text_ends(#[trigger] ru[i], ",AUTO"@) implies d.contains(
        ru[i],
    ) by {
        if i < 7 {
            assert(d[i] == ru[i]);
        } else {
            let n = ru[i].len();
            assert(ru[i].subrange(n - 5, n as int) =~= ",AUTO"@);
        }
    }
    assert(ru[7] == "GEOSITE,google,AUTO"@);
    assert(ru[8] == "GEOSITE,azure,AUTO"@);
    assert(ru[9] == "GEOSITE,microsoft,AUTO"@);
    assert(ru[10] == "GEOSITE,github,AUTO"@);
    assert(ru[11] == "GEOSITE,youtube,AUTO"@);
    assert(ru[12] == "GEOSITE,telegram,AUTO"@);
    assert(ru[13] == "GEOSITE,twitter,AUTO"@);
    assert(ru[14] == "GEOSITE,netflix,AUTO"@);
    assert(ru[15] == "GEOSITE,spotify,AUTO"@);
    assert(eu[4] == "GEOSITE,google,DIRECT"@);
    assert(eu[5] == "GEOSITE,azure,DIRECT"@);
    assert(eu[6] == "GEOSITE,microsoft,DIRECT"@);
    assert(eu[7] == "GEOSITE,github,DIRECT"@);
    assert(eu[8] == "GEOSITE,youtube,DIRECT"@);
    assert(eu[9] == "GEOSITE,telegram,DIRECT"@);
    assert(eu[10] == "GEOSITE,twitter,DIRECT"@);
    assert(eu[11] == "GEOSITE,netflix,DIRECT"@);
    assert(eu[12] == "GEOSITE,spotify,DIRECT"@);
}

} // verus!
