//! Who sits where.

use vstd::prelude::*;
use crate::cli::seats::{
    entry_of, equals_at, filled, parsed_number, plugin_with_id, plugins_named, seat_by_id, seat_by_name, seat_of,
    seats_after, table_of, wanted, wants_plugins, AlgorithmKind, Plugins, SeatSpec,
};
use crate::inference::registry::scan::CertifiedPluginRuntime;
use crate::maintainer::offer_laws::lemma_pushed;
use crate::text::trimmed;

verus! {

/// A plugin is the first with an identifier.
pub open spec fn is_first_with_id(plugins: Seq<CertifiedPluginRuntime>, id: Seq<char>, i: int) -> bool {
    &&& 0 <= i < plugins.len() && plugins[i].model_id@ == id
    &&& forall|j: int| 0 <= j < i ==> (#[trigger] plugins[j]).model_id@ != id
}

proof fn lemma_with_id(plugins: Seq<CertifiedPluginRuntime>, id: Seq<char>)
    ensures
        match plugin_with_id(plugins, id) {
            Some(i) => is_first_with_id(plugins, id, i),
            None => forall|j: int| 0 <= j < plugins.len() ==> (#[trigger] plugins[j]).model_id@ != id,
        },
    decreases plugins.len(),
{
    if plugins.len() > 0 {
        let r = plugins.drop_last();
        lemma_with_id(r, id);
        assert forall|j: int| 0 <= j < r.len() implies #[trigger] plugins[j] == r[j] by {}
    }
}

/// The game of a table: of four players, or of three.
pub open spec fn plays(p: CertifiedPluginRuntime, players: u8) -> bool {
    p.rule_line@ == if players == 4 { "riichi4p"@ } else { "riichi3p"@ }
}

/// A seat asked for by identifier goes to the first plugin that has it, and only where that one plays the
/// table's game.
pub proof fn identifiers_seat_their_plugin(players: u8, id: Seq<char>, root: Seq<char>, plugins: Seq<CertifiedPluginRuntime>, i: int)
    requires
        plugins.len() <= usize::MAX,
        0 <= i < plugins.len(),
    ensures
        seat_by_id(players, id, root, plugins) == Ok::<SeatSpec, Seq<char>>(SeatSpec::Plugin(i as usize)) <==> is_first_with_id(
            plugins,
            id,
            i,
        ) && plays(plugins[i], players),
        seat_by_id(players, id, root, plugins) is Ok ==> seat_by_id(players, id, root, plugins)->Ok_0 is Plugin,
{
    lemma_with_id(plugins, id);
    if plugin_with_id(plugins, id) is Some {
        let k = plugin_with_id(plugins, id)->0;
        if is_first_with_id(plugins, id, i) {
            assert(plugins[k].model_id@ == id && plugins[i].model_id@ == id);
            assert(k == i);
        }
    }
}

/// A plugin has a name and plays a game.
pub open spec fn answers_to(p: CertifiedPluginRuntime, name: Seq<char>, players: u8) -> bool {
    p.name@ == name && plays(p, players)
}

proof fn lemma_named(plugins: Seq<CertifiedPluginRuntime>, name: Seq<char>, players: u8)
    ensures
        forall|i: int| #[trigger]
            plugins_named(plugins, name, wanted(players)).contains(i) <==> 0 <= i < plugins.len() && answers_to(
                plugins[i],
                name,
                players,
            ),
        forall|a: int, b: int|
            0 <= a < b < plugins_named(plugins, name, wanted(players)).len() ==> #[trigger] plugins_named(
                plugins,
                name,
                wanted(players),
            )[a] < #[trigger] plugins_named(plugins, name, wanted(players))[b],
    decreases plugins.len(),
{
    if plugins.len() > 0 {
        let r = plugins.drop_last();
        lemma_named(r, name, players);
        let s = plugins_named(r, name, wanted(players));
        let t = plugins_named(plugins, name, wanted(players));
        assert forall|i: int| #[trigger] t.contains(i) <==> 0 <= i < plugins.len() && answers_to(plugins[i], name, players) by {
            lemma_pushed(s, plugins.len() - 1, i);
            if 0 <= i < r.len() {
                assert(r[i] == plugins[i]);
            }
            assert(s.contains(i) <==> 0 <= i < r.len() && answers_to(r[i], name, players));
        }
        assert forall|a: int, b: int| 0 <= a < b < t.len() implies #[trigger] t[a] < #[trigger] t[b] by {
            if b == s.len() {
                assert(s.contains(s[a]));
            }
        }
    }
}

/// A seat asked for by name goes to the one plugin of that name that plays the table's game, and to none
/// where there are several.
pub proof fn names_seat_their_only_plugin(players: u8, name: Seq<char>, root: Seq<char>, plugins: Seq<CertifiedPluginRuntime>, i: int)
    requires
        plugins.len() <= usize::MAX,
        0 <= i < plugins.len(),
    ensures
        seat_by_name(players, name, root, plugins) == Ok::<SeatSpec, Seq<char>>(SeatSpec::Plugin(i as usize)) <==> {
            &&& answers_to(plugins[i], name, players)
            &&& forall|j: int| 0 <= j < plugins.len() && j != i ==> !answers_to(#[trigger] plugins[j], name, players)
        },
        seat_by_name(players, name, root, plugins) is Ok ==> seat_by_name(players, name, root, plugins)->Ok_0 is Plugin,
{
    let f = plugins_named(plugins, name, wanted(players));
    lemma_named(plugins, name, players);
    if f.len() > 0 {
        assert(f.contains(f[0]));
    }
    if f.len() > 1 {
        assert(f.contains(f[1]));
        assert(f[0] < f[1]);
    }
    if answers_to(plugins[i], name, players) {
        assert(f.contains(i));
        let a = choose|a: int| 0 <= a < f.len() && f[a] == i;
        if f.len() > 1 {
            let o = if a == 0 { f[1] } else { f[0] };
            assert(f.contains(o));
            assert(o != i && answers_to(plugins[o], name, players));
        }
    }
    if f.len() == 1 {
        assert forall|j: int| 0 <= j < plugins.len() && j != f[0] implies !answers_to(#[trigger] plugins[j], name, players) by {
            if answers_to(plugins[j], name, players) {
                assert(f.contains(j));
            }
        }
    }
}

/// An entry sets a seat: it names the seat, and what it sets it to can be seated.
pub open spec fn sets(entry: Seq<char>, players: u8, plugins: Option<Plugins>, seat: int, s: SeatSpec) -> bool {
    entry_of(entry, players as nat) is Ok && (entry_of(entry, players as nat)->Ok_0).0 == seat && seat_of(
        players,
        (entry_of(entry, players as nat)->Ok_0).1,
        plugins,
    ) == Ok::<SeatSpec, Seq<char>>(s)
}

/// An entry sets some seat of the table.
pub open spec fn sets_some(entry: Seq<char>, players: u8, plugins: Option<Plugins>) -> bool {
    entry_of(entry, players as nat) is Ok && seat_of(players, (entry_of(entry, players as nat)->Ok_0).1, plugins) is Ok
}

/// The seat that an entry names.
pub open spec fn seat_named(entry: Seq<char>, players: u8) -> nat {
    (entry_of(entry, players as nat)->Ok_0).0
}

proof fn lemma_entry(entry: Seq<char>, players: u8)
    ensures
        entry_of(entry, players as nat) is Ok ==> seat_named(entry, players) < players,
{
}

proof fn lemma_seats(players: u8, entries: Seq<Seq<char>>, plugins: Option<Plugins>)
    ensures
        seats_after(players, entries, plugins) is Ok <==> {
            &&& forall|i: int| 0 <= i < entries.len() ==> sets_some(#[trigger] entries[i], players, plugins)
            &&& forall|i: int, j: int|
                0 <= i < j < entries.len() ==> seat_named(#[trigger] entries[i], players) != seat_named(#[trigger] entries[j], players)
        },
        seats_after(players, entries, plugins) is Ok ==> {
            let t = seats_after(players, entries, plugins)->Ok_0;
            &&& t.len() == players
            &&& forall|i: int|
                0 <= i < entries.len() ==> t[seat_named(#[trigger] entries[i], players) as int] is Some && sets(
                    entries[i],
                    players,
                    plugins,
                    seat_named(entries[i], players) as int,
                    t[seat_named(entries[i], players) as int]->0,
                )
            &&& forall|k: int|
                0 <= k < players && (#[trigger] t[k]) is Some ==> exists|i: int|
                    0 <= i < entries.len() && seat_named(#[trigger] entries[i], players) == k
        },
    decreases entries.len(),
{
    if entries.len() > 0 {
        let r = entries.drop_last();
        let e = entries.last();
        let n = r.len() as int;
        lemma_seats(players, r, plugins);
        lemma_entry(e, players);
        assert(entries[n] == e);
        assert forall|i: int| 0 <= i < n implies #[trigger] entries[i] == r[i] by {}
        let before = seats_after(players, r, plugins);
        if before is Ok && sets_some(e, players, plugins) {
            let t = before->Ok_0;
            let k = seat_named(e, players) as int;
            if t[k] is Some {
                let i = choose|i: int| 0 <= i < r.len() && seat_named(#[trigger] r[i], players) == k;
                assert(seat_named(entries[i], players) == seat_named(entries[n], players));
            } else {
                assert forall|i: int, j: int| 0 <= i < j < entries.len() implies seat_named(#[trigger] entries[i], players)
                    != seat_named(#[trigger] entries[j], players) by {
                    assert(entries[i] == r[i]);
                    if j < n {
                        assert(entries[j] == r[j]);
                    } else {
                        assert(t[seat_named(r[i], players) as int] is Some);
                    }
                }
                let u = seats_after(players, entries, plugins)->Ok_0;
                assert forall|m: int| 0 <= m < players && (#[trigger] u[m]) is Some implies exists|i: int|
                    0 <= i < entries.len() && seat_named(#[trigger] entries[i], players) == m by {
                    if m == k {
                        assert(seat_named(entries[n], players) == m);
                    } else {
                        assert(t[m] is Some);
                        let i = choose|i: int| 0 <= i < r.len() && seat_named(#[trigger] r[i], players) == m;
                        assert(seat_named(entries[i], players) == m);
                    }
                }
                assert forall|i: int| 0 <= i < entries.len() implies u[seat_named(#[trigger] entries[i], players) as int] is Some
                    && sets(
                    entries[i],
                    players,
                    plugins,
                    seat_named(entries[i], players) as int,
                    u[seat_named(entries[i], players) as int]->0,
                ) by {
                    if i < n {
                        assert(r[i] == entries[i]);
                        assert(t[seat_named(r[i], players) as int] is Some);
                    }
                }
            }
        }
        if before is Err {
            if forall|i: int| 0 <= i < entries.len() ==> sets_some(#[trigger] entries[i], players, plugins) {
                assert forall|i: int| 0 <= i < r.len() implies sets_some(#[trigger] r[i], players, plugins) by {
                    assert(entries[i] == r[i]);
                }
                let (i, j) = choose|i: int, j: int|
                    0 <= i < j < r.len() && seat_named(#[trigger] r[i], players) == seat_named(#[trigger] r[j], players);
                assert(seat_named(entries[i], players) == seat_named(entries[j], players));
            }
        }
    }
}

/// A table is set exactly where it is for three or four, plugins have a place to come from, every entry
/// can be seated, and no two name one seat. Each entry then sits where it says, and every seat that none
/// names plays what it draws.
pub proof fn entries_sit_where_they_say(players: u8, entries: Seq<Seq<char>>, plugins: Option<Plugins>)
    ensures
        table_of(players, entries, plugins) is Ok <==> {
            &&& players == 3 || players == 4
            &&& wants_plugins(entries) ==> plugins is Some
            &&& forall|i: int| 0 <= i < entries.len() ==> sets_some(#[trigger] entries[i], players, plugins)
            &&& forall|i: int, j: int|
                0 <= i < j < entries.len() ==> seat_named(#[trigger] entries[i], players) != seat_named(#[trigger] entries[j], players)
        },
        table_of(players, entries, plugins) is Ok ==> {
            let t = table_of(players, entries, plugins)->Ok_0;
            &&& t.len() == players
            &&& forall|i: int|
                0 <= i < entries.len() ==> sets(
                    #[trigger] entries[i],
                    players,
                    plugins,
                    seat_named(entries[i], players) as int,
                    t[seat_named(entries[i], players) as int],
                )
            &&& forall|k: int|
                0 <= k < players && (forall|i: int|
                    0 <= i < entries.len() ==> seat_named(#[trigger] entries[i], players) != k) ==> #[trigger] t[k]
                    == SeatSpec::Algorithm(AlgorithmKind::Tsumogiri)
        },
{
    lemma_seats(players, entries, plugins);
    if table_of(players, entries, plugins) is Ok {
        let s = seats_after(players, entries, plugins)->Ok_0;
        let t = filled(s);
        assert forall|i: int| 0 <= i < entries.len() implies sets(
            #[trigger] entries[i],
            players,
            plugins,
            seat_named(entries[i], players) as int,
            t[seat_named(entries[i], players) as int],
        ) by {
            lemma_entry(entries[i], players);
            assert(s[seat_named(entries[i], players) as int] is Some);
        }
    }
}

proof fn lemma_equals(a: Seq<char>, b: Seq<char>)
    requires
        !a.contains('='),
    ensures
        equals_at(a + seq!['='] + b) == Some(a.len() as int),
        equals_at(a) is None,
    decreases a.len() + b.len(),
{
    let s = a + seq!['='] + b;
    if b.len() > 0 {
        lemma_equals(a, b.drop_last());
        assert(s.drop_last() =~= a + seq!['='] + b.drop_last());
    } else {
        lemma_no_equals(a);
        assert(s.drop_last() =~= a);
        assert(s.last() == '=');
    }
    lemma_no_equals(a);
}

proof fn lemma_no_equals(a: Seq<char>)
    requires
        !a.contains('='),
    ensures
        equals_at(a) is None,
    decreases a.len(),
{
    if a.len() > 0 {
        let r = a.drop_last();
        assert(!r.contains('=')) by {
            if r.contains('=') {
                let i = choose|i: int| 0 <= i < r.len() && r[i] == '=';
                assert(a[i] == '=');
            }
        }
        lemma_no_equals(r);
        assert(a[a.len() - 1] == a.last());
    }
}

/// An entry is a seat, an equals sign and what it is set to, blanks around them aside; the seat is a
/// number below the number of players.
pub proof fn entries_are_a_seat_and_a_setting(a: Seq<char>, b: Seq<char>, players: u8)
    requires
        !a.contains('='),
    ensures
        ({
            let r = entry_of(a + seq!['='] + b, players as nat);
            let n = parsed_number(trimmed(a));
            &&& r is Ok <==> n is Some && n->0 < players
            &&& r is Ok ==> (r->Ok_0).0 == n->0 && (r->Ok_0).1 == trimmed(b)
        }),
        entry_of(a, players as nat) is Err,
{
    lemma_equals(a, b);
    let s = a + seq!['='] + b;
    assert(s.take(a.len() as int) =~= a);
    assert(s.skip(a.len() as int + 1) =~= b);
}

} // verus!
