use vstd::prelude::*;

use crate::error::PickError;
use crate::text::{has_prefix, lines, lines_of, split_on, split_seq, starts_with, views};

verus! {

/// The default prefix, `ZUP-`, and suffixes, `-prd` and `-hml`.
pub open spec fn default_prefix() -> Seq<char> {
    seq!['Z', 'U', 'P', '-']
}

pub open spec fn default_suffix_prd() -> Seq<char> {
    seq!['-', 'p', 'r', 'd']
}

pub open spec fn default_suffix_hml() -> Seq<char> {
    seq!['-', 'h', 'm', 'l']
}

/// How the branches of a ticket are named: `<prefix><ticket><suffix>`.
#[derive(Debug, Clone, PartialEq, Eq)]
pub struct NamingScheme {
    pub prefix: String,
    pub suffix_prd: String,
    pub suffix_hml: String,
}

/// What a user's configuration file sets; an unset field takes its default.
#[derive(Debug, Clone, PartialEq, Eq)]
pub struct Config {
    pub prefix: Option<String>,
    pub suffix_prd: Option<String>,
    pub suffix_hml: Option<String>,
}

/// The production and homologation branches of one ticket.
#[derive(Debug, Clone, PartialEq, Eq)]
pub struct BranchPair {
    pub production: String,
    pub homologation: String,
}

/// `value` when it is set, `default` otherwise.
pub open spec fn setting(value: Option<String>, default: Seq<char>) -> Seq<char> {
    match value {
        Some(v) => v@,
        None => default,
    }
}

/// The ticket of a branch name: the second of its `-`-separated pieces.
pub open spec fn ticket_of(branch: Seq<char>) -> Seq<char> {
    split_seq(branch, '-')[1]
}

/// The production and homologation names that `branch` resolves to, or `None` when it
/// has fewer than two `-`-separated pieces or does not begin with `prefix`.
pub open spec fn resolved(
    branch: Seq<char>,
    prefix: Seq<char>,
    suffix_prd: Seq<char>,
    suffix_hml: Seq<char>,
) -> Option<(Seq<char>, Seq<char>)> {
    if split_seq(branch, '-').len() >= 2 && has_prefix(branch, prefix) {
        let ticket = ticket_of(branch);
        Some((prefix + ticket + suffix_prd, prefix + ticket + suffix_hml))
    } else {
        None
    }
}

impl Config {
    /// A configuration that sets nothing.
    pub fn empty() -> (r: Config)
        ensures
            r.prefix is None,
            r.suffix_prd is None,
            r.suffix_hml is None,
    {
        Config { prefix: None, suffix_prd: None, suffix_hml: None }
    }
}

fn setting_or(value: &Option<String>, default: &str) -> (r: String)
    ensures
        r@ == setting(*value, default@),
{
    match value {
        Some(v) => v.clone(),
        None => String::from_str(default),
    }
}

impl NamingScheme {
    /// The scheme `ZUP-<ticket>-prd` / `ZUP-<ticket>-hml`.
    pub fn defaults() -> (r: NamingScheme)
        ensures
            r.prefix@ == default_prefix(),
            r.suffix_prd@ == default_suffix_prd(),
            r.suffix_hml@ == default_suffix_hml(),
    {
        NamingScheme::from_config(&Config::empty())
    }

    /// The scheme that `config` sets, field by field over the defaults.
    pub fn from_config(config: &Config) -> (r: NamingScheme)
        ensures
            r.prefix@ == setting(config.prefix, default_prefix()),
            r.suffix_prd@ == setting(config.suffix_prd, default_suffix_prd()),
            r.suffix_hml@ == setting(config.suffix_hml, default_suffix_hml()),
    {
        proof {
            reveal_strlit("ZUP-");
            reveal_strlit("-prd");
            reveal_strlit("-hml");
            assert("ZUP-"@ =~= default_prefix());
            assert("-prd"@ =~= default_suffix_prd());
            assert("-hml"@ =~= default_suffix_hml());
        }
        NamingScheme {
            prefix: setting_or(&config.prefix, "ZUP-"),
            suffix_prd: setting_or(&config.suffix_prd, "-prd"),
            suffix_hml: setting_or(&config.suffix_hml, "-hml"),
        }
    }
}

/// The first of `ls` that begins with `key`.
pub open spec fn first_with_prefix(ls: Seq<Seq<char>>, key: Seq<char>) -> Option<Seq<char>>
    decreases ls.len(),
{
    if ls.len() == 0 {
        None
    } else if has_prefix(ls[0], key) {
        Some(ls[0])
    } else {
        first_with_prefix(ls.drop_first(), key)
    }
}

/// The first line of `text` that begins with `key`, or `fallback`.
pub open spec fn line_or(text: Seq<char>, key: Seq<char>, fallback: Seq<char>) -> Seq<char> {
    match first_with_prefix(lines_of(text), key) {
        Some(l) => l,
        None => fallback,
    }
}

/// The commented configuration file for a TOML rendering `toml` of a full configuration.
pub open spec fn config_file(toml: Seq<char>) -> Seq<char> {
    "# Configuration file for chr tool\n\n# The prefix for branch names (default: \"ZUP-\")\n"@
        + line_or(toml, "prefix"@, "prefix = \"\""@)
        + "\n# The suffix for production branches (default: \"-prd\")\n"@
        + line_or(toml, "suffix_prd"@, "suffix_prd = \"\""@)
        + "\n# The suffix for homologation branches (default: \"-hml\")\n"@
        + line_or(toml, "suffix_hml"@, "suffix_hml = \"\""@) + "\n"@
}

/// The first line of `text` that begins with `key`, or `fallback`.
fn find_line(text: &str, key: &str, fallback: &str) -> (r: String)
    ensures
        r@ == line_or(text@, key@, fallback@),
{
    let ls = lines(text);
    let ghost lv = lines_of(text@);
    let mut i: usize = 0;
    assert(lv.subrange(0, lv.len() as int) =~= lv);
    while i < ls.len()
        invariant
            lv == lines_of(text@),
            views(ls@) == lv,
            i <= ls@.len(),
            first_with_prefix(lv, key@) == first_with_prefix(
                lv.subrange(i as int, lv.len() as int),
                key@,
            ),
        decreases ls@.len() - i,
    {
        assert(ls@[i as int]@ == lv[i as int]);
        let ghost rest = lv.subrange(i as int, lv.len() as int);
        assert(rest[0] == lv[i as int]);
        if starts_with(ls[i].as_str(), key) {
            assert(first_with_prefix(rest, key@) == Some(lv[i as int]));
            let found = String::from_str(ls[i].as_str());
            return found;
        }
        assert(rest.drop_first() =~= lv.subrange(i + 1, lv.len() as int));
        i = i + 1;
    }
    assert(lv.subrange(i as int, lv.len() as int) =~= Seq::<Seq<char>>::empty());
    String::from_str(fallback)
}

/// The configuration file to write, with a comment above each setting, from the TOML
/// rendering of a configuration that sets all three fields.
pub fn config_file_text(toml: &str) -> (r: String)
    ensures
        r@ == config_file(toml@),
{
    let prefix = find_line(toml, "prefix", "prefix = \"\"");
    let prd = find_line(toml, "suffix_prd", "suffix_prd = \"\"");
    let hml = find_line(toml, "suffix_hml", "suffix_hml = \"\"");
    String::from_str(
        "# Configuration file for chr tool\n\n# The prefix for branch names (default: \"ZUP-\")\n",
    ).concat(prefix.as_str()).concat(
        "\n# The suffix for production branches (default: \"-prd\")\n",
    ).concat(prd.as_str()).concat(
        "\n# The suffix for homologation branches (default: \"-hml\")\n",
    ).concat(hml.as_str()).concat("\n")
}

/// The branch pair of the ticket that `current` names under `scheme`.
pub fn resolve(current: &str, scheme: &NamingScheme) -> (r: Result<BranchPair, PickError>)
    ensures
        match r {
            Ok(pair) => resolved(current@, scheme.prefix@, scheme.suffix_prd@, scheme.suffix_hml@)
                == Some((pair.production@, pair.homologation@)),
            Err(e) => e == PickError::InvalidBranchFormat && resolved(
                current@,
                scheme.prefix@,
                scheme.suffix_prd@,
                scheme.suffix_hml@,
            ) is None,
        },
{
    let parts = split_on(current, '-');
    if parts.len() < 2 {
        return Err(PickError::InvalidBranchFormat);
    }
    if !starts_with(current, scheme.prefix.as_str()) {
        return Err(PickError::InvalidBranchFormat);
    }
    assert(parts@[1]@ == ticket_of(current@));
    let ticket = parts[1].as_str();
    let production = scheme.prefix.clone().concat(ticket).concat(scheme.suffix_prd.as_str());
    let homologation = scheme.prefix.clone().concat(ticket).concat(scheme.suffix_hml.as_str());
    Ok(BranchPair { production, homologation })
}

/// Appending text without the delimiter extends the last piece.
proof fn lemma_split_append_plain(s: Seq<char>, t: Seq<char>, d: char)
    requires
        !t.contains(d),
    ensures
        split_seq(s + t, d) == split_seq(s, d).update(
            split_seq(s, d).len() - 1,
            split_seq(s, d).last() + t,
        ),
    decreases t.len(),
{
    crate::text::lemma_split_seq_nonempty(s, d);
    if t.len() == 0 {
        assert(s + t =~= s);
        assert(split_seq(s, d).last() + t =~= split_seq(s, d).last());
        assert(split_seq(s, d).update(split_seq(s, d).len() - 1, split_seq(s, d).last())
            =~= split_seq(s, d));
    } else {
        let u = t.drop_last();
        let c = t.last();
        assert(!u.contains(d)) by {
            if u.contains(d) {
                let k = choose|k: int| 0 <= k < u.len() && u[k] == d;
                assert(t[k] == d);
            }
        };
        assert(t[t.len() - 1] == c);
        lemma_split_append_plain(s, u, d);
        assert((s + t).drop_last() =~= s + u);
        assert((s + t).last() == c);
        let prev = split_seq(s + u, d);
        let base = split_seq(s, d);
        assert(prev.len() == base.len());
        assert(prev.last() == base.last() + u);
        assert(prev.last().push(c) =~= base.last() + t);
        assert(prev.update(prev.len() - 1, prev.last().push(c)) =~= split_seq(s, d).update(
            split_seq(s, d).len() - 1,
            split_seq(s, d).last() + t,
        ));
    }
}

/// Appending the delimiter starts a new, empty piece.
proof fn lemma_split_push_delim(s: Seq<char>, d: char)
    ensures
        split_seq(s.push(d), d) == split_seq(s, d).push(Seq::<char>::empty()),
{
    assert(s.push(d).drop_last() =~= s);
}

/// Appending text leaves every piece but the last as it was.
proof fn lemma_split_append_keeps(s: Seq<char>, t: Seq<char>, d: char, i: int)
    requires
        0 <= i < split_seq(s, d).len() - 1,
    ensures
        i < split_seq(s + t, d).len() - 1,
        split_seq(s + t, d)[i] == split_seq(s, d)[i],
    decreases t.len(),
{
    if t.len() == 0 {
        assert(s + t =~= s);
    } else {
        let u = t.drop_last();
        lemma_split_append_keeps(s, u, d, i);
        crate::text::lemma_split_seq_nonempty(s + u, d);
        assert((s + t).drop_last() =~= s + u);
    }
}

/// A branch that does not begin with the prefix never resolves.
pub proof fn lemma_foreign_branch_rejected(branch: Seq<char>, scheme: NamingScheme)
    requires
        !has_prefix(branch, scheme.prefix@),
    ensures
        resolved(branch, scheme.prefix@, scheme.suffix_prd@, scheme.suffix_hml@) is None,
{
}

/// A production branch named `<prefix><ticket><suffix_prd>` resolves to itself and to
/// `<prefix><ticket><suffix_hml>`, where the prefix ends in its only `-`, the ticket has
/// none, and the production suffix is empty or begins with `-`.
pub proof fn lemma_production_branch_resolves(
    head: Seq<char>,
    ticket: Seq<char>,
    suffix_prd: Seq<char>,
    suffix_hml: Seq<char>,
)
    requires
        !head.contains('-'),
        !ticket.contains('-'),
        suffix_prd.len() == 0 || suffix_prd[0] == '-',
    ensures
        resolved(head.push('-') + ticket + suffix_prd, head.push('-'), suffix_prd, suffix_hml)
            == Some(
            (head.push('-') + ticket + suffix_prd, head.push('-') + ticket + suffix_hml),
        ),
{
    let e = Seq::<char>::empty();
    let prefix = head.push('-');
    let b = prefix + ticket + suffix_prd;
    lemma_split_append_plain(e, head, '-');
    assert(e + head =~= head);
    assert(split_seq(e, '-') =~= seq![e]);
    assert(split_seq(head, '-') =~= seq![head]);
    lemma_split_push_delim(head, '-');
    lemma_split_append_plain(prefix, ticket, '-');
    let x = prefix + ticket;
    assert(split_seq(x, '-') =~= seq![head, ticket]);
    if suffix_prd.len() == 0 {
        assert(b =~= x);
    } else {
        let rest = suffix_prd.drop_first();
        lemma_split_push_delim(x, '-');
        assert(b =~= x.push('-') + rest);
        lemma_split_append_keeps(x.push('-'), rest, '-', 1);
        lemma_split_append_keeps(x.push('-'), rest, '-', 0);
    }
    assert(b.subrange(0, prefix.len() as int) =~= prefix);
    assert(ticket_of(b) == ticket);
}

} // verus!
