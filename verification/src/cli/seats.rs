//! Which agents sit at the table, as the command line says.

use vstd::prelude::*;
use vstd::string::*;
use crate::inference::parse::starts_with;
use crate::inference::registry::scan::CertifiedPluginRuntime;
use crate::mahjong::rules::{RiichiRuleProfile, RulePlatform};
use crate::mahjong::tile::{quote, quoted};
use crate::text::{
    chars_of, dec, dec_usize, from_chars, join2, join3, join_all, joined, lower, owned, same, texts, trim, trimmed,
};

verus! {

/// How long a match is.
#[derive(Debug, Clone, Copy, PartialEq, Eq, Structural)]
pub enum MatchKind {
    /// One hand.
    Single,
    /// An east-only game.
    East,
    /// An east-south game.
    Half,
}

impl MatchKind {
    pub open spec fn named(s: Seq<char>) -> Option<MatchKind> {
        if s == "single"@ {
            Some(MatchKind::Single)
        } else if s == "east"@ {
            Some(MatchKind::East)
        } else if s == "half"@ {
            Some(MatchKind::Half)
        } else {
            None
        }
    }

    pub fn parse(s: &str) -> (r: Option<MatchKind>)
        ensures
            r == Self::named(s@),
    {
        if same(s, "single") {
            Some(MatchKind::Single)
        } else if same(s, "east") {
            Some(MatchKind::East)
        } else if same(s, "half") {
            Some(MatchKind::Half)
        } else {
            None
        }
    }
}

/// A built-in player.
#[derive(Debug, Clone, Copy, PartialEq, Eq, Structural)]
pub enum AlgorithmKind {
    /// Discards what it draws.
    Tsumogiri,
}

impl AlgorithmKind {
    pub open spec fn named(s: Seq<char>) -> Option<AlgorithmKind> {
        if s == "tsumogiri"@ { Some(AlgorithmKind::Tsumogiri) } else { None }
    }

    pub fn parse(s: &str) -> (r: Option<AlgorithmKind>)
        ensures
            r == Self::named(s@),
    {
        if same(s, "tsumogiri") {
            Some(AlgorithmKind::Tsumogiri)
        } else {
            None
        }
    }
}

/// Who sits at a seat: a built-in player, or the plugin at a place of the list.
#[derive(Debug, Clone, Copy, PartialEq, Eq, Structural)]
pub enum SeatSpec {
    Algorithm(AlgorithmKind),
    Plugin(usize),
}

// Messages.

pub open spec fn needs_root() -> Seq<char> {
    "plugin seats need --models-root <root> (the registry scans <root>/{4p,3p}/<plugin>)"@
}

fn plugin_needs_root() -> (r: String)
    ensures
        r@ == needs_root(),
{
    owned("plugin seats need --models-root <root> (the registry scans <root>/{4p,3p}/<plugin>)")
}

/// A plugin, as it is listed where another was asked for by its identifier.
pub open spec fn listed_by_id(p: CertifiedPluginRuntime) -> Seq<char> {
    p.model_id@ + " (name="@ + p.name@ + ") ["@ + p.rule_line@ + "]"@
}

/// A plugin, as it is listed where another was asked for by its name.
pub open spec fn listed_by_name(p: CertifiedPluginRuntime) -> Seq<char> {
    "name="@ + p.name@ + " ["@ + p.rule_line@ + "] -> "@ + p.model_id@
}

pub open spec fn listed(plugins: Seq<CertifiedPluginRuntime>, by_name: bool) -> Seq<Seq<char>> {
    Seq::new(plugins.len(), |i: int| if by_name { listed_by_name(plugins[i]) } else { listed_by_id(plugins[i]) })
}

/// That no plugin has an identifier.
pub open spec fn id_not_found(root: Seq<char>, id: Seq<char>, plugins: Seq<CertifiedPluginRuntime>) -> Seq<char> {
    if plugins.len() == 0 {
        "no certified plugins under models-root "@ + root + " (model_id="@ + quoted(id) + " not found)"@
    } else {
        "model_id="@ + quoted(id) + " not found. Certified plugins:\n  - "@ + joined(listed(plugins, false), "\n  - "@)
    }
}

/// That no plugin of the game has a name.
pub open spec fn name_not_found(root: Seq<char>, name: Seq<char>, want: Seq<char>, plugins: Seq<CertifiedPluginRuntime>) -> Seq<char> {
    if plugins.len() == 0 {
        "no certified plugins under models-root "@ + root + " (name="@ + quoted(name) + " "@ + want + ")"@
    } else {
        "name="@ + quoted(name) + " not found under "@ + want + ". Certified plugins:\n  - "@ + joined(
            listed(plugins, true),
            "\n  - "@,
        )
    }
}

fn list_plugins(plugins: &Vec<CertifiedPluginRuntime>, by_name: bool) -> (r: Vec<String>)
    ensures
        texts(r@) == listed(plugins@, by_name),
{
    let mut out: Vec<String> = Vec::new();
    let mut i: usize = 0;
    while i < plugins.len()
        invariant
            i <= plugins@.len(),
            out@.len() == i,
            forall|j: int|
                0 <= j < i ==> (#[trigger] out@[j])@ == if by_name {
                    listed_by_name(plugins@[j])
                } else {
                    listed_by_id(plugins@[j])
                },
        decreases plugins@.len() - i,
    {
        let p = &plugins[i];
        let line = if by_name {
            let mut s = join3("name=", p.name.as_str(), " [");
            s.append(p.rule_line.as_str());
            s.append("] -> ");
            s.append(p.model_id.as_str());
            s
        } else {
            let mut s = join3(p.model_id.as_str(), " (name=", p.name.as_str());
            s.append(") [");
            s.append(p.rule_line.as_str());
            s.append("]");
            s
        };
        out.push(line);
        i = i + 1;
    }
    assert(texts(out@) =~= listed(plugins@, by_name));
    out
}

fn not_found_msg(root: &str, id: &str, plugins: &Vec<CertifiedPluginRuntime>) -> (r: String)
    ensures
        r@ == id_not_found(root@, id@, plugins@),
{
    if plugins.len() == 0 {
        let mut s = join3("no certified plugins under models-root ", root, " (model_id=");
        s.append(quote(id).as_str());
        s.append(" not found)");
        s
    } else {
        let mut s = join3("model_id=", quote(id).as_str(), " not found. Certified plugins:\n  - ");
        s.append(join_all(&list_plugins(plugins, false), "\n  - ").as_str());
        s
    }
}

fn not_found_by_name(root: &str, name: &str, want: &str, plugins: &Vec<CertifiedPluginRuntime>) -> (r: String)
    ensures
        r@ == name_not_found(root@, name@, want@, plugins@),
{
    if plugins.len() == 0 {
        let mut s = join3("no certified plugins under models-root ", root, " (name=");
        s.append(quote(name).as_str());
        s.append(" ");
        s.append(want);
        s.append(")");
        s
    } else {
        let mut s = join3("name=", quote(name).as_str(), " not found under ");
        s.append(want);
        s.append(". Certified plugins:\n  - ");
        s.append(join_all(&list_plugins(plugins, true), "\n  - ").as_str());
        s
    }
}

// A seat.

/// The game of a number of players.
pub open spec fn wanted(players: u8) -> Seq<char> {
    if players == 4 { "riichi4p"@ } else { "riichi3p"@ }
}

/// The first plugin with an identifier.
pub open spec fn plugin_with_id(plugins: Seq<CertifiedPluginRuntime>, id: Seq<char>) -> Option<int>
    decreases plugins.len(),
{
    if plugins.len() == 0 {
        None
    } else {
        match plugin_with_id(plugins.drop_last(), id) {
            Some(i) => Some(i),
            None => if plugins.last().model_id@ == id { Some(plugins.len() - 1) } else { None },
        }
    }
}

/// The places of the plugins with a name and a game.
pub open spec fn plugins_named(plugins: Seq<CertifiedPluginRuntime>, name: Seq<char>, want: Seq<char>) -> Seq<int>
    decreases plugins.len(),
{
    if plugins.len() == 0 {
        Seq::empty()
    } else if plugins.last().name@ == name && plugins.last().rule_line@ == want {
        plugins_named(plugins.drop_last(), name, want).push(plugins.len() - 1)
    } else {
        plugins_named(plugins.drop_last(), name, want)
    }
}

/// What a seat is set to by `plugin:`.
pub open spec fn seat_by_id(players: u8, id: Seq<char>, root: Seq<char>, plugins: Seq<CertifiedPluginRuntime>) -> Result<
    SeatSpec,
    Seq<char>,
> {
    match plugin_with_id(plugins, id) {
        None => Err(id_not_found(root, id, plugins)),
        Some(i) => if plugins[i].rule_line@ != wanted(players) {
            Err(
                "plugin "@ + plugins[i].model_id@ + " is for rule line "@ + plugins[i].rule_line@
                    + ", which does not match --players "@ + dec(players as nat) + " ("@ + wanted(players) + ")"@,
            )
        } else {
            Ok(SeatSpec::Plugin(i as usize))
        },
    }
}

/// What a seat is set to by `plugin@`.
pub open spec fn seat_by_name(players: u8, name: Seq<char>, root: Seq<char>, plugins: Seq<CertifiedPluginRuntime>) -> Result<
    SeatSpec,
    Seq<char>,
> {
    let found = plugins_named(plugins, name, wanted(players));
    if found.len() == 0 {
        Err(name_not_found(root, name, wanted(players), plugins))
    } else if found.len() == 1 {
        Ok(SeatSpec::Plugin(found[0] as usize))
    } else {
        Err(
            "name="@ + quoted(name) + " matches "@ + dec(found.len()) + " plugins under "@ + wanted(players)
                + "; use plugin:<model_id> instead"@,
        )
    }
}

/// The plugins of a models root, where one was given.
pub ghost struct Plugins {
    pub root: Seq<char>,
    pub list: Seq<CertifiedPluginRuntime>,
}

/// What a seat is set to.
pub open spec fn seat_of(players: u8, spec: Seq<char>, plugins: Option<Plugins>) -> Result<SeatSpec, Seq<char>> {
    if starts_with(spec, "plugin:"@) {
        match plugins {
            None => Err(needs_root()),
            Some(p) => seat_by_id(players, spec.skip(7), p.root, p.list),
        }
    } else if starts_with(spec, "plugin@"@) {
        match plugins {
            None => Err(needs_root()),
            Some(p) => seat_by_name(players, spec.skip(7), p.root, p.list),
        }
    } else {
        match AlgorithmKind::named(spec) {
            Some(k) => Ok(SeatSpec::Algorithm(k)),
            None => Err(
                "unknown seat spec "@ + quoted(spec) + " (expected tsumogiri / plugin:<model_id> / plugin@<name>)"@,
            ),
        }
    }
}

/// A seat or a reason, as facts.
pub open spec fn seat_result(r: Result<SeatSpec, String>) -> Result<SeatSpec, Seq<char>> {
    match r {
        Ok(s) => Ok(s),
        Err(e) => Err(e@),
    }
}

proof fn lemma_id_prefix(plugins: Seq<CertifiedPluginRuntime>, id: Seq<char>, n: int)
    requires
        0 <= n <= plugins.len(),
        plugin_with_id(plugins.take(n), id) is Some,
    ensures
        plugin_with_id(plugins, id) == plugin_with_id(plugins.take(n), id),
    decreases plugins.len() - n,
{
    if n == plugins.len() {
        assert(plugins.take(n) =~= plugins);
    } else {
        assert(plugins.take(n + 1).drop_last() =~= plugins.take(n));
        lemma_id_prefix(plugins, id, n + 1);
    }
}

fn find_by_id(plugins: &Vec<CertifiedPluginRuntime>, id: &str) -> (r: Option<usize>)
    ensures
        match r {
            Some(i) => i < plugins@.len() && plugin_with_id(plugins@, id@) == Some(i as int),
            None => plugin_with_id(plugins@, id@) is None,
        },
{
    let mut i: usize = 0;
    while i < plugins.len()
        invariant
            i <= plugins@.len(),
            plugin_with_id(plugins@.take(i as int), id@) is None,
        decreases plugins@.len() - i,
    {
        assert(plugins@.take(i + 1).drop_last() =~= plugins@.take(i as int));
        assert(plugins@.take(i + 1).last() == plugins@[i as int]);
        if same(plugins[i].model_id.as_str(), id) {
            proof { lemma_id_prefix(plugins@, id@, i + 1); }
            return Some(i);
        }
        i = i + 1;
    }
    assert(plugins@.take(i as int) =~= plugins@);
    None
}

fn find_by_name(plugins: &Vec<CertifiedPluginRuntime>, name: &str, want: &str) -> (r: Vec<usize>)
    ensures
        r@.len() == plugins_named(plugins@, name@, want@).len(),
        forall|i: int| 0 <= i < r@.len() ==> #[trigger] r@[i] == plugins_named(plugins@, name@, want@)[i],
{
    let mut out: Vec<usize> = Vec::new();
    let mut i: usize = 0;
    while i < plugins.len()
        invariant
            i <= plugins@.len(),
            out@.len() == plugins_named(plugins@.take(i as int), name@, want@).len(),
            forall|k: int| 0 <= k < out@.len() ==> #[trigger] out@[k] == plugins_named(plugins@.take(i as int), name@, want@)[k],
        decreases plugins@.len() - i,
    {
        assert(plugins@.take(i + 1).drop_last() =~= plugins@.take(i as int));
        assert(plugins@.take(i + 1).last() == plugins@[i as int]);
        if same(plugins[i].name.as_str(), name) && same(plugins[i].rule_line.as_str(), want) {
            out.push(i);
        }
        i = i + 1;
    }
    assert(plugins@.take(i as int) =~= plugins@);
    out
}

/// The text after a prefix.
fn strip(s: &str, prefix: &str) -> (r: Option<String>)
    ensures
        match r {
            Some(t) => starts_with(s@, prefix@) && t@ == s@.skip(prefix@.len() as int),
            None => !starts_with(s@, prefix@),
        },
{
    let c = chars_of(s);
    let p = chars_of(prefix);
    if p.len() > c.len() {
        return None;
    }
    let mut i: usize = 0;
    while i < p.len()
        invariant
            i <= p@.len() <= c@.len(),
            c@ == s@,
            p@ == prefix@,
            forall|j: int| 0 <= j < i ==> c@[j] == p@[j],
        decreases p@.len() - i,
    {
        if c[i] != p[i] {
            assert(s@.take(p@.len() as int)[i as int] != p@[i as int]);
            return None;
        }
        i = i + 1;
    }
    assert(s@.take(p@.len() as int) =~= p@);
    let mut rest: Vec<char> = Vec::new();
    while i < c.len()
        invariant
            p@.len() <= i <= c@.len(),
            rest@ == c@.subrange(p@.len() as int, i as int),
        decreases c@.len() - i,
    {
        rest.push(c[i]);
        assert(c@.subrange(p@.len() as int, i + 1) =~= c@.subrange(p@.len() as int, i as int).push(c@[i as int]));
        i = i + 1;
    }
    assert(rest@ =~= s@.skip(p@.len() as int));
    Some(from_chars(&rest))
}

fn parse_by_id(players: u8, id: &str, root: &str, plugins: &Vec<CertifiedPluginRuntime>) -> (r: Result<SeatSpec, String>)
    ensures
        seat_result(r) == seat_by_id(players, id@, root@, plugins@),
{
    let want = if players == 4 { "riichi4p" } else { "riichi3p" };
    match find_by_id(plugins, id) {
        None => Err(not_found_msg(root, id, plugins)),
        Some(i) => {
            let p = &plugins[i];
            if !same(p.rule_line.as_str(), want) {
                let mut s = join3("plugin ", p.model_id.as_str(), " is for rule line ");
                s.append(p.rule_line.as_str());
                s.append(", which does not match --players ");
                s.append(dec_usize(players as usize).as_str());
                s.append(" (");
                s.append(want);
                s.append(")");
                return Err(s);
            }
            Ok(SeatSpec::Plugin(i))
        },
    }
}

fn parse_by_name(players: u8, name: &str, root: &str, plugins: &Vec<CertifiedPluginRuntime>) -> (r: Result<SeatSpec, String>)
    ensures
        seat_result(r) == seat_by_name(players, name@, root@, plugins@),
{
    let want = if players == 4 { "riichi4p" } else { "riichi3p" };
    let found = find_by_name(plugins, name, want);
    if found.len() == 0 {
        Err(not_found_by_name(root, name, want, plugins))
    } else if found.len() == 1 {
        assert(found@[0] == plugins_named(plugins@, name@, want@)[0]);
        Ok(SeatSpec::Plugin(found[0]))
    } else {
        let mut s = join3("name=", quote(name).as_str(), " matches ");
        s.append(dec_usize(found.len()).as_str());
        s.append(" plugins under ");
        s.append(want);
        s.append("; use plugin:<model_id> instead");
        Err(s)
    }
}

/// The plugins of a models root, as facts.
pub open spec fn plugins_view(root: Option<&str>, plugins: Option<&Vec<CertifiedPluginRuntime>>) -> Option<Plugins> {
    match (root, plugins) {
        (Some(r), Some(p)) => Some(Plugins { root: r@, list: p@ }),
        _ => None,
    }
}

/// What a seat is set to.
pub fn parse_spec(players: u8, spec: &str, root: Option<&str>, plugins: Option<&Vec<CertifiedPluginRuntime>>) -> (r: Result<
    SeatSpec,
    String,
>)
    ensures
        seat_result(r) == seat_of(players, spec@, plugins_view(root, plugins)),
{
    proof {
        reveal_strlit("plugin:");
        reveal_strlit("plugin@");
        assert("plugin:"@.len() == 7);
        assert("plugin@"@.len() == 7);
    }
    match strip(spec, "plugin:") {
        Some(id) => {
            return match (root, plugins) {
                (Some(r), Some(p)) => parse_by_id(players, id.as_str(), r, p),
                _ => Err(plugin_needs_root()),
            };
        },
        None => {},
    }
    match strip(spec, "plugin@") {
        Some(name) => {
            return match (root, plugins) {
                (Some(r), Some(p)) => parse_by_name(players, name.as_str(), r, p),
                _ => Err(plugin_needs_root()),
            };
        },
        None => {},
    }
    match AlgorithmKind::parse(spec) {
        Some(k) => Ok(SeatSpec::Algorithm(k)),
        None => Err(
            join3(
                "unknown seat spec ",
                quote(spec).as_str(),
                " (expected tsumogiri / plugin:<model_id> / plugin@<name>)",
            ),
        ),
    }
}

// The table.

/// The place of the first equals sign.
pub open spec fn equals_at(s: Seq<char>) -> Option<int>
    decreases s.len(),
{
    if s.len() == 0 {
        None
    } else {
        match equals_at(s.drop_last()) {
            Some(i) => Some(i),
            None => if s.last() == '=' { Some(s.len() - 1) } else { None },
        }
    }
}

pub open spec fn is_digit(c: char) -> bool {
    '0' <= c && c <= '9'
}

/// The number that digits write.
pub open spec fn number_of(s: Seq<char>) -> nat
    decreases s.len(),
{
    if s.len() == 0 { 0 } else { number_of(s.drop_last()) * 10 + (s.last() as nat - '0' as nat) as nat }
}

pub open spec fn all_digits(s: Seq<char>) -> bool {
    forall|i: int| 0 <= i < s.len() ==> is_digit(#[trigger] s[i])
}

/// A text without a plus sign before it.
pub open spec fn unsigned(s: Seq<char>) -> Seq<char> {
    if s.len() > 0 && s[0] == '+' { s.drop_first() } else { s }
}

/// The number of a text: digits, perhaps after a plus sign.
pub open spec fn parsed_number(s: Seq<char>) -> Option<nat> {
    let d = unsigned(s);
    if d.len() > 0 && all_digits(d) && number_of(d) <= usize::MAX {
        Some(number_of(d))
    } else {
        None
    }
}

proof fn lemma_number_grows(s: Seq<char>, n: int)
    requires
        0 <= n <= s.len(),
        all_digits(s),
    ensures
        number_of(s.take(n)) <= number_of(s),
    decreases s.len() - n,
{
    if n == s.len() {
        assert(s.take(n) =~= s);
    } else {
        assert(s.take(n + 1).drop_last() =~= s.take(n));
        assert(is_digit(s[n]));
        lemma_number_grows(s, n + 1);
    }
}

fn parse_index(s: &str) -> (r: Option<usize>)
    ensures
        match r {
            Some(n) => parsed_number(s@) == Some(n as nat),
            None => parsed_number(s@) is None,
        },
{
    let all = chars_of(s);
    let from: usize = if all.len() > 0 && all[0] == '+' { 1 } else { 0 };
    let ghost d = unsigned(s@);
    assert(d =~= all@.skip(from as int));
    if all.len() == from {
        return None;
    }
    let mut k: usize = from;
    while k < all.len()
        invariant
            from <= k <= all@.len(),
            d == all@.skip(from as int),
            all@ == s@,
            d == unsigned(s@),
            forall|i: int| 0 <= i < k - from ==> is_digit(#[trigger] d[i]),
        decreases all@.len() - k,
    {
        assert(d[k - from] == all@[k as int]);
        if !('0' <= all[k] && all[k] <= '9') {
            return None;
        }
        k = k + 1;
    }
    let mut n: usize = 0;
    let mut i: usize = from;
    assert(d.take(0) =~= Seq::empty());
    while i < all.len()
        invariant
            from <= i <= all@.len(),
            d == all@.skip(from as int),
            all@ == s@,
            d.len() == all@.len() - from,
            d == unsigned(s@),
            all_digits(d),
            n == number_of(d.take(i - from)),
        decreases all@.len() - i,
    {
        assert(d.take(i - from + 1).drop_last() =~= d.take(i - from));
        assert(d.take(i - from + 1).last() == all@[i as int]);
        assert(is_digit(d[i - from]));
        let digit: usize = (all[i] as u32 - '0' as u32) as usize;
        proof { lemma_number_grows(d, i - from + 1); }
        if n > usize::MAX / 10 {
            return None;
        }
        if n * 10 > usize::MAX - digit {
            return None;
        }
        n = n * 10 + digit;
        i = i + 1;
    }
    assert(d.take(d.len() as int) =~= d);
    Some(n)
}

/// An entry of the command line: a seat and what it is set to, or why it is refused.
pub open spec fn entry_of(entry: Seq<char>, n: nat) -> Result<(nat, Seq<char>), Seq<char>> {
    match equals_at(entry) {
        None => Err("--seat must be I=SPEC, got "@ + quoted(entry)),
        Some(at) => match parsed_number(trimmed(entry.take(at))) {
            None => Err("invalid --seat index: "@ + quoted(entry.take(at))),
            Some(i) => if i >= n {
                Err("seat index "@ + dec(i) + " is outside 0.."@ + dec(n))
            } else {
                Ok((i, trimmed(entry.skip(at + 1))))
            },
        },
    }
}

/// The seats after some entries, or the first reason against one.
pub open spec fn seats_after(players: u8, entries: Seq<Seq<char>>, plugins: Option<Plugins>) -> Result<Seq<Option<SeatSpec>>, Seq<char>>
    decreases entries.len(),
{
    if entries.len() == 0 {
        Ok(Seq::new(players as nat, |i: int| None))
    } else {
        match seats_after(players, entries.drop_last(), plugins) {
            Err(e) => Err(e),
            Ok(seats) => match entry_of(entries.last(), players as nat) {
                Err(e) => Err(e),
                Ok((i, spec)) => if seats[i as int] is Some {
                    Err("seat "@ + dec(i) + " specified more than once"@)
                } else {
                    match seat_of(players, spec, plugins) {
                        Err(e) => Err(e),
                        Ok(s) => Ok(seats.update(i as int, Some(s))),
                    }
                },
            },
        }
    }
}

/// A seat that is not set plays tsumogiri.
pub open spec fn filled(seats: Seq<Option<SeatSpec>>) -> Seq<SeatSpec> {
    Seq::new(
        seats.len(),
        |i: int|
            match seats[i] {
                Some(s) => s,
                None => SeatSpec::Algorithm(AlgorithmKind::Tsumogiri),
            },
    )
}

/// Who sits at the table. Plugins that are asked for without a models root are refused before any
/// entry is read.
pub open spec fn table_of(players: u8, entries: Seq<Seq<char>>, plugins: Option<Plugins>) -> Result<Seq<SeatSpec>, Seq<char>> {
    if players != 3 && players != 4 {
        Err("only 3 or 4 seats are supported"@)
    } else if wants_plugins(entries) && plugins is None {
        Err(needs_root())
    } else {
        match seats_after(players, entries, plugins) {
            Err(e) => Err(e),
            Ok(seats) => Ok(filled(seats)),
        }
    }
}

fn split_entry(entry: &str) -> (r: Option<(String, String)>)
    ensures
        match r {
            Some((a, b)) => equals_at(entry@) is Some && a@ == entry@.take(equals_at(entry@)->0) && b@ == entry@.skip(
                equals_at(entry@)->0 + 1,
            ),
            None => equals_at(entry@) is None,
        },
{
    let c = chars_of(entry);
    let mut head: Vec<char> = Vec::new();
    let mut i: usize = 0;
    while i < c.len() && c[i] != '='
        invariant
            i <= c@.len(),
            head@ == c@.take(i as int),
            equals_at(c@.take(i as int)) is None,
        decreases c@.len() - i,
    {
        assert(c@.take(i + 1).drop_last() =~= c@.take(i as int));
        assert(c@.take(i + 1) =~= c@.take(i as int).push(c@[i as int]));
        head.push(c[i]);
        i = i + 1;
    }
    if i == c.len() {
        assert(c@.take(i as int) =~= c@);
        return None;
    }
    assert(c@.take(i + 1).drop_last() =~= c@.take(i as int));
    assert(c@.take(i + 1).last() == '=');
    proof { lemma_equals_prefix(c@, i + 1); }
    let mut tail: Vec<char> = Vec::new();
    let mut k: usize = i + 1;
    while k < c.len()
        invariant
            i < c@.len(),
            i + 1 <= k <= c@.len(),
            tail@ == c@.subrange(i + 1, k as int),
        decreases c@.len() - k,
    {
        tail.push(c[k]);
        assert(c@.subrange(i + 1, k + 1) =~= c@.subrange(i + 1, k as int).push(c@[k as int]));
        k = k + 1;
    }
    assert(tail@ =~= c@.skip(i + 1));
    Some((from_chars(&head), from_chars(&tail)))
}

proof fn lemma_equals_prefix(s: Seq<char>, n: int)
    requires
        0 <= n <= s.len(),
        equals_at(s.take(n)) is Some,
    ensures
        equals_at(s) == equals_at(s.take(n)),
    decreases s.len() - n,
{
    if n == s.len() {
        assert(s.take(n) =~= s);
    } else {
        assert(s.take(n + 1).drop_last() =~= s.take(n));
        lemma_equals_prefix(s, n + 1);
    }
}

fn parse_entry(entry: &str, n: usize) -> (r: Result<(usize, String), String>)
    ensures
        match r {
            Ok((i, s)) => entry_of(entry@, n as nat) == Ok::<(nat, Seq<char>), Seq<char>>((i as nat, s@)) && i < n,
            Err(e) => entry_of(entry@, n as nat) == Err::<(nat, Seq<char>), Seq<char>>(e@),
        },
{
    match split_entry(entry) {
        None => Err(join2("--seat must be I=SPEC, got ", quote(entry).as_str())),
        Some((idx, spec)) => match parse_index(trim(idx.as_str()).as_str()) {
            None => Err(join2("invalid --seat index: ", quote(idx.as_str()).as_str())),
            Some(i) => {
                if i >= n {
                    let mut s = join3("seat index ", dec_usize(i).as_str(), " is outside 0..");
                    s.append(dec_usize(n).as_str());
                    return Err(s);
                }
                Ok((i, trim(spec.as_str())))
            },
        },
    }
}

proof fn lemma_first_bad_entry(players: u8, entries: Seq<Seq<char>>, plugins: Option<Plugins>, n: int)
    requires
        0 <= n <= entries.len(),
        seats_after(players, entries.take(n), plugins) is Err,
    ensures
        seats_after(players, entries, plugins) == seats_after(players, entries.take(n), plugins),
    decreases entries.len() - n,
{
    if n == entries.len() {
        assert(entries.take(n) =~= entries);
    } else {
        assert(entries.take(n + 1).drop_last() =~= entries.take(n));
        lemma_first_bad_entry(players, entries, plugins, n + 1);
    }
}

fn read_entries(players: u8, entries: &Vec<String>, root: Option<&str>, plugins: Option<&Vec<CertifiedPluginRuntime>>) -> (r: Result<
    Vec<Option<SeatSpec>>,
    String,
>)
    ensures
        match r {
            Ok(v) => seats_after(players, texts(entries@), plugins_view(root, plugins)) == Ok::<
                Seq<Option<SeatSpec>>,
                Seq<char>,
            >(v@) && v@.len() == players,
            Err(e) => seats_after(players, texts(entries@), plugins_view(root, plugins)) == Err::<
                Seq<Option<SeatSpec>>,
                Seq<char>,
            >(e@),
        },
{
    let ghost all = texts(entries@);
    let ghost found = plugins_view(root, plugins);
    let mut seats: Vec<Option<SeatSpec>> = Vec::new();
    let mut k: u8 = 0;
    while k < players
        invariant
            k <= players,
            seats@.len() == k,
            forall|j: int| 0 <= j < k ==> #[trigger] seats@[j] == None::<SeatSpec>,
        decreases players - k,
    {
        seats.push(None);
        k = k + 1;
    }
    assert(seats@ =~= Seq::new(players as nat, |i: int| None));
    let mut i: usize = 0;
    assert(all.take(0) =~= Seq::empty());
    while i < entries.len()
        invariant
            i <= entries@.len(),
            all == texts(entries@),
            found == plugins_view(root, plugins),
            seats@.len() == players,
            seats_after(players, all.take(i as int), found) == Ok::<Seq<Option<SeatSpec>>, Seq<char>>(seats@),
        decreases entries@.len() - i,
    {
        assert(all.take(i + 1).drop_last() =~= all.take(i as int));
        assert(all.take(i + 1).last() == entries@[i as int]@);
        let (at, spec) = match parse_entry(entries[i].as_str(), players as usize) {
            Ok(p) => p,
            Err(e) => {
                proof { lemma_first_bad_entry(players, all, found, i + 1); }
                return Err(e);
            },
        };
        if seats[at].is_some() {
            proof { lemma_first_bad_entry(players, all, found, i + 1); }
            return Err(join3("seat ", dec_usize(at).as_str(), " specified more than once"));
        }
        match parse_spec(players, spec.as_str(), root, plugins) {
            Ok(s) => {
                seats.set(at, Some(s));
            },
            Err(e) => {
                proof { lemma_first_bad_entry(players, all, found, i + 1); }
                return Err(e);
            },
        }
        i = i + 1;
    }
    assert(all.take(i as int) =~= all);
    Ok(seats)
}

/// Whether an entry asks for a plugin.
pub open spec fn asks_for_plugin(entry: Seq<char>) -> bool {
    match equals_at(entry) {
        None => false,
        Some(at) => starts_with(trimmed(entry.skip(at + 1)), "plugin:"@) || starts_with(
            trimmed(entry.skip(at + 1)),
            "plugin@"@,
        ),
    }
}

/// Whether some entry asks for a plugin.
pub open spec fn wants_plugins(entries: Seq<Seq<char>>) -> bool {
    exists|i: int| 0 <= i < entries.len() && asks_for_plugin(#[trigger] entries[i])
}

/// Whether the plugins have to be looked for.
pub fn needs_plugins(entries: &Vec<String>) -> (r: bool)
    ensures
        r == wants_plugins(texts(entries@)),
{
    let mut i: usize = 0;
    while i < entries.len()
        invariant
            i <= entries@.len(),
            forall|j: int| 0 <= j < i ==> !asks_for_plugin(#[trigger] texts(entries@)[j]),
        decreases entries@.len() - i,
    {
        assert(texts(entries@)[i as int] == entries@[i as int]@);
        match split_entry(entries[i].as_str()) {
            Some((_, spec)) => {
                let s = trim(spec.as_str());
                if strip(s.as_str(), "plugin:").is_some() || strip(s.as_str(), "plugin@").is_some() {
                    assert(asks_for_plugin(texts(entries@)[i as int]));
                    return true;
                }
            },
            None => {},
        }
        i = i + 1;
    }
    false
}

/// Who sits at the table, from the entries of the command line.
pub fn seat_table(players: u8, entries: &Vec<String>, root: Option<&str>, plugins: Option<&Vec<CertifiedPluginRuntime>>) -> (r: Result<
    Vec<SeatSpec>,
    String,
>)
    ensures
        match r {
            Ok(v) => table_of(players, texts(entries@), plugins_view(root, plugins)) == Ok::<Seq<SeatSpec>, Seq<char>>(v@),
            Err(e) => table_of(players, texts(entries@), plugins_view(root, plugins)) == Err::<Seq<SeatSpec>, Seq<char>>(e@),
        },
{
    if players != 3 && players != 4 {
        return Err(owned("only 3 or 4 seats are supported"));
    }
    if (root.is_none() || plugins.is_none()) && needs_plugins(entries) {
        return Err(plugin_needs_root());
    }
    let seats = match read_entries(players, entries, root, plugins) {
        Ok(s) => s,
        Err(e) => {
            return Err(e);
        },
    };
    let mut out: Vec<SeatSpec> = Vec::new();
    let mut i: usize = 0;
    while i < seats.len()
        invariant
            i <= seats@.len(),
            out@.len() == i,
            forall|j: int| 0 <= j < i ==> #[trigger] out@[j] == filled(seats@)[j],
        decreases seats@.len() - i,
    {
        out.push(
            match seats[i] {
                Some(s) => s,
                None => SeatSpec::Algorithm(AlgorithmKind::Tsumogiri),
            },
        );
        i = i + 1;
    }
    assert(out@ =~= filled(seats@));
    Ok(out)
}

/// The length and the rules of a match, from the arguments of the command line.
pub fn match_rules(players: u8, length: &str, platform: &str) -> (r: Result<(MatchKind, RiichiRuleProfile), String>)
    ensures
        match r {
            Ok((kind, profile)) => {
                &&& players == 3 || players == 4
                &&& MatchKind::named(length@) == Some(kind)
                &&& RulePlatform::named(lower(trimmed(platform@))) is Some
                &&& profile == RiichiRuleProfile::from_platform(RulePlatform::named(lower(trimmed(platform@)))->0)
            },
            Err(e) => if players != 3 && players != 4 {
                e@ == "only 3 or 4 seats are supported"@
            } else if MatchKind::named(length@) is None {
                e@ == "unknown --length "@ + quoted(length@) + " (expected single / east / half)"@
            } else {
                RulePlatform::named(lower(trimmed(platform@))) is None && e@ == "unknown rule platform "@ + quoted(
                    lower(trimmed(platform@)),
                ) + " (expected tenhou / mahjong-soul / riichi-city)"@
            },
        },
{
    if players != 3 && players != 4 {
        return Err(owned("only 3 or 4 seats are supported"));
    }
    match MatchKind::parse(length) {
        None => Err(join3("unknown --length ", quote(length).as_str(), " (expected single / east / half)")),
        Some(kind) => match RiichiRuleProfile::from_name(platform) {
            Ok(profile) => Ok((kind, profile)),
            Err(e) => Err(e),
        },
    }
}

/// Every table that is accepted has as many seats as players.
pub proof fn tables_have_a_seat_for_each_player(players: u8, entries: Seq<Seq<char>>, plugins: Option<Plugins>)
    ensures
        table_of(players, entries, plugins) is Ok ==> table_of(players, entries, plugins)->Ok_0.len() == players,
{
    if seats_after(players, entries, plugins) is Ok {
        lemma_seat_count(players, entries, plugins);
    }
}

proof fn lemma_seat_count(players: u8, entries: Seq<Seq<char>>, plugins: Option<Plugins>)
    requires
        seats_after(players, entries, plugins) is Ok,
    ensures
        seats_after(players, entries, plugins)->Ok_0.len() == players,
    decreases entries.len(),
{
    if entries.len() > 0 {
        lemma_seat_count(players, entries.drop_last(), plugins);
    }
}

} // verus!
