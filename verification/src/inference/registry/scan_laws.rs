//! What a scan counts, and what of it may run.

use vstd::prelude::*;
use crate::inference::contract::{CapsFacts, RuleLine};
use crate::inference::registry::manifest::{PackageModelManifest, PluginFacts};
use crate::inference::registry::scan::{
    caps_fault, count_certified, count_failed, count_skipped, entry_runtime, find_model, is_certified, runtimes,
    FoundManifest, PluginCertificate, PluginScanEntry, RuntimeFacts,
};
use crate::mahjong::yaku_laws::{lemma_tally, places, tally};
use crate::maintainer::offer_laws::lemma_pushed;

verus! {

proof fn lemma_counts(s: Seq<PluginScanEntry>, n: int)
    requires
        0 <= n <= s.len(),
    ensures
        count_certified(s.take(n)) == tally(n, |i: int| s[i].status is Certified),
        count_failed(s.take(n)) == tally(n, |i: int| s[i].status is Failed),
        count_skipped(s.take(n)) == tally(n, |i: int| s[i].status is Skipped),
    decreases n,
{
    if n > 0 {
        lemma_counts(s, n - 1);
        assert(s.take(n).drop_last() =~= s.take(n - 1));
    }
}

/// A report counts each entry under its status.
pub proof fn reports_count_each_status(s: Seq<PluginScanEntry>)
    ensures
        count_certified(s) == places(s.len(), |i: int| s[i].status is Certified).len(),
        count_failed(s) == places(s.len(), |i: int| s[i].status is Failed).len(),
        count_skipped(s) == places(s.len(), |i: int| s[i].status is Skipped).len(),
{
    let n = s.len() as int;
    lemma_counts(s, n);
    assert(s.take(n) =~= s);
    lemma_tally(n, |i: int| s[i].status is Certified);
    lemma_tally(n, |i: int| s[i].status is Failed);
    lemma_tally(n, |i: int| s[i].status is Skipped);
}

/// An engine is as its manifest says exactly where it knows the protocol, plays the game, and declares
/// riichi in the same style.
pub proof fn engines_are_held_to_their_manifest(caps: CapsFacts, m: PluginFacts)
    ensures
        caps_fault(caps, m) is None <==> {
            &&& exists|i: int| 0 <= i < caps.protocol_versions.len() && #[trigger] caps.protocol_versions[i] == m.protocol
            &&& exists|i: int| 0 <= i < caps.rule_lines.len() && #[trigger] caps.rule_lines[i] == m.rule_line
            &&& caps.riichi_style == m.riichi_style
        },
{
}

/// A certificate of other files, of another protocol or game, of another schema, or without the dealer's
/// opening does not hold; any other does.
pub proof fn certificates_hold_for_what_was_tried(cert: PluginCertificate, hash: Seq<char>, protocol: Seq<char>, line: RuleLine)
    ensures
        is_certified(cert, hash, protocol, line) <==> {
            &&& cert.package_hash@ == hash && cert.protocol@ == protocol && cert.schema == 2 && cert.smoke.dealer_opening_checked
            &&& match line {
                RuleLine::Riichi4p => cert.rule_line@ == "riichi4p"@,
                RuleLine::Riichi3p => cert.rule_line@ == "riichi3p"@,
            }
        },
{
}

/// The model of a name and a game is the first that has both.
pub proof fn models_are_found_by_name_and_game(models: Seq<PackageModelManifest>, id: Seq<char>, line: Seq<char>)
    ensures
        match find_model(models, id, line) {
            Some(m) => exists|i: int|
                0 <= i < models.len() && #[trigger] models[i] == m && m.id@ == id && m.rule_line@ == line && forall|j: int|
                    0 <= j < i ==> !((#[trigger] models[j]).id@ == id && models[j].rule_line@ == line),
            None => forall|j: int| 0 <= j < models.len() ==> !((#[trigger] models[j]).id@ == id && models[j].rule_line@ == line),
        },
    decreases models.len(),
{
    if models.len() > 0 {
        let r = models.drop_first();
        models_are_found_by_name_and_game(r, id, line);
        if models[0].id@ == id && models[0].rule_line@ == line {
            assert(models[0] == find_model(models, id, line)->0);
        } else {
            assert forall|j: int| 1 <= j < models.len() implies #[trigger] models[j] == r[j - 1] by {}
            match find_model(models, id, line) {
                Some(m) => {
                    let i = choose|i: int|
                        0 <= i < r.len() && #[trigger] r[i] == m && m.id@ == id && m.rule_line@ == line && forall|j: int|
                            0 <= j < i ==> !((#[trigger] r[j]).id@ == id && r[j].rule_line@ == line);
                    assert(models[i + 1] == m);
                    assert forall|j: int| 0 <= j < i + 1 implies !((#[trigger] models[j]).id@ == id && models[j].rule_line@ == line) by {
                        if j > 0 {
                            assert(models[j] == r[j - 1]);
                        }
                    }
                },
                None => {},
            }
        }
    }
}

/// What may run is exactly what some entry of the report may run, with the manifest at its place.
pub proof fn runtimes_are_those_of_entries(entries: Seq<PluginScanEntry>, found: Seq<FoundManifest>, r: RuntimeFacts)
    requires
        entries.len() <= found.len(),
    ensures
        runtimes(entries, found).contains(r) <==> exists|i: int|
            0 <= i < entries.len() && entry_runtime((#[trigger] entries[i])@, found[i]) == Some(r),
    decreases entries.len(),
{
    if entries.len() > 0 {
        let s = entries.drop_last();
        let n = entries.len() - 1;
        runtimes_are_those_of_entries(s, found, r);
        assert(entries[n] == entries.last());
        if entry_runtime(entries.last()@, found[n]) is Some {
            lemma_pushed(runtimes(s, found), entry_runtime(entries.last()@, found[n])->0, r);
        }
        if exists|i: int| 0 <= i < s.len() && entry_runtime((#[trigger] s[i])@, found[i]) == Some(r) {
            let i = choose|i: int| 0 <= i < s.len() && entry_runtime((#[trigger] s[i])@, found[i]) == Some(r);
            assert(entries[i] == s[i]);
        }
        if exists|i: int| 0 <= i < entries.len() && entry_runtime((#[trigger] entries[i])@, found[i]) == Some(r) {
            let i = choose|i: int| 0 <= i < entries.len() && entry_runtime((#[trigger] entries[i])@, found[i]) == Some(r);
            if i < n {
                assert(s[i] == entries[i]);
            }
        }
    }
}

} // verus!
