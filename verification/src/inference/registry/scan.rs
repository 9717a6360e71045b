//! What a scan of plugins and packages finds, and what may run of it.

use vstd::prelude::*;
use vstd::string::*;
use crate::inference::contract::{
    string_view, strings_view, CapsFacts, EngineCaps, RiichiStyle, RuleLine,
};
use crate::inference::registry::digest::{
    files_view, holds_file, model_digest, package_model_hash, valid_models_name_files, FileFacts, PackageFile,
};
use crate::inference::registry::manifest::{
    copy_strings, is_blank, line_named, rule_line_from, valid_model, valid_package, valid_plugin, validate_manifest,
    validate_package_manifest, validate_package_model, KindFacts, PackageManifest, PackageModelKind,
    PackageModelManifest, PluginFacts, PluginManifest, ValidatedManifest,
};
use crate::inference::registry::names::{
    cert_path, file_name, last_part, launch_path, model_id, plugin_model_id, resolve_launch_cmd, text_fault,
};
use crate::inference::session::{contains_line, contains_text};
use crate::text::{join2, join3, owned, same, trim};

verus! {

/// What a scan says of plugins.
pub const PLUGIN_SECURITY_WARNING: &'static str = "Loading plugin packages executes arbitrary code; certification is a protocol smoke check, not a sandbox.";
/// What a certificate is worth.
pub const PLUGIN_CERTIFICATION_LIMIT: &'static str = "Certification checks launch, handshake, caps, digest echo, and sampled legal decisions only; runtime legal-action matching remains the safety boundary.";
/// Decisions that an engine is tried on.
pub const SMOKE_DECISIONS: usize = 8;

// Certificates.

/// How an engine did when it was tried.
#[derive(Debug, Clone, Copy, PartialEq, Eq, Structural)]
pub struct SmokeSummary {
    pub decisions: usize,
    pub all_legal: bool,
    pub dealer_opening_checked: bool,
    pub max_infer_ms: u64,
}

/// What an engine could do when it was tried.
#[derive(Debug)]
pub struct CertificateCaps {
    pub riichi_style: String,
    pub supports_incremental: bool,
    pub returns_ranked_actions: bool,
}

/// That an engine was tried, and on which files.
#[derive(Debug)]
pub struct PluginCertificate {
    pub schema: u32,
    pub package_hash: String,
    pub protocol: String,
    pub rule_line: String,
    pub caps: CertificateCaps,
    pub smoke: SmokeSummary,
    pub validated_at: String,
}

/// A certificate still holds: it is of this digest, protocol and game, and covers the dealer's
/// opening.
pub open spec fn is_certified(cert: PluginCertificate, hash: Seq<char>, protocol: Seq<char>, rule_line: RuleLine) -> bool {
    &&& cert.schema == 2
    &&& cert.package_hash@ == hash
    &&& cert.protocol@ == protocol
    &&& cert.rule_line@ == rule_line.spec_wire_value()
    &&& cert.smoke.dealer_opening_checked
}

/// Whether a certificate still holds.
pub fn certificate_holds(cert: &PluginCertificate, hash: &str, protocol: &str, rule_line: RuleLine) -> (r: bool)
    ensures
        r == is_certified(*cert, hash@, protocol@, rule_line),
{
    cert.schema == 2 && same(cert.package_hash.as_str(), hash) && same(cert.protocol.as_str(), protocol) && same(
        cert.rule_line.as_str(),
        rule_line.wire_value(),
    ) && cert.smoke.dealer_opening_checked
}

/// The name of a riichi style.
pub open spec fn style_text(s: RiichiStyle) -> Seq<char> {
    match s {
        RiichiStyle::ParallelDiscard => "parallel_discard"@,
        RiichiStyle::DeclareThenDiscard => "declare_then_discard"@,
    }
}

pub(crate) fn style_str(s: RiichiStyle) -> (r: &'static str)
    ensures
        r@ == style_text(s),
{
    match s {
        RiichiStyle::ParallelDiscard => "parallel_discard",
        RiichiStyle::DeclareThenDiscard => "declare_then_discard",
    }
}

/// The certificate of an engine that was tried.
pub fn new_certificate(hash: &str, protocol: &str, rule_line: RuleLine, caps: &EngineCaps, smoke: SmokeSummary, validated_at: &str) -> (r:
    PluginCertificate)
    ensures
        r.schema == 2,
        r.package_hash@ == hash@,
        r.protocol@ == protocol@,
        r.rule_line@ == rule_line.spec_wire_value(),
        r.caps.riichi_style@ == style_text(caps.riichi_style),
        r.caps.supports_incremental == caps.supports_incremental,
        r.caps.returns_ranked_actions == caps.returns_ranked_actions,
        r.smoke == smoke,
        r.validated_at@ == validated_at@,
        smoke.dealer_opening_checked ==> is_certified(r, hash@, protocol@, rule_line),
{
    PluginCertificate {
        schema: 2,
        package_hash: owned(hash),
        protocol: owned(protocol),
        rule_line: owned(rule_line.wire_value()),
        caps: CertificateCaps {
            riichi_style: owned(style_str(caps.riichi_style)),
            supports_incremental: caps.supports_incremental,
            returns_ranked_actions: caps.returns_ranked_actions,
        },
        smoke,
        validated_at: owned(validated_at),
    }
}

/// A certificate never holds for other files than those it was made on.
pub proof fn certificates_are_bound_to_their_digest(cert: PluginCertificate, hash: Seq<char>, protocol: Seq<char>, rule_line: RuleLine)
    requires
        cert.package_hash@ != hash,
    ensures
        !is_certified(cert, hash, protocol, rule_line),
{
}

/// Why an engine's capabilities are not those of its manifest.
pub open spec fn caps_fault(caps: CapsFacts, m: PluginFacts) -> Option<Seq<char>> {
    if !caps.protocol_versions.contains(m.protocol) {
        Some("caps protocol_versions does not include "@ + m.protocol)
    } else if !caps.rule_lines.contains(m.rule_line) {
        Some("caps.rule_lines does not include "@ + m.rule_line.spec_wire_value())
    } else if caps.riichi_style != m.riichi_style {
        Some(
            "manifest riichi_style "@ + style_text(m.riichi_style) + " disagrees with engine caps "@ + style_text(
                caps.riichi_style,
            ),
        )
    } else {
        None
    }
}

/// Holds an engine's capabilities against its manifest.
pub fn validate_caps(caps: &EngineCaps, manifest: &ValidatedManifest) -> (r: Result<(), String>)
    ensures
        text_fault(r) == caps_fault(caps@, manifest@),
{
    if !contains_text(&caps.protocol_versions, manifest.protocol.as_str()) {
        return Err(join2("caps protocol_versions does not include ", manifest.protocol.as_str()));
    }
    if !contains_line(&caps.rule_lines, manifest.rule_line) {
        return Err(join2("caps.rule_lines does not include ", manifest.rule_line.wire_value()));
    }
    if caps.riichi_style != manifest.riichi_style {
        let mut e = join3("manifest riichi_style ", style_str(manifest.riichi_style), " disagrees with engine caps ");
        e.append(style_str(caps.riichi_style));
        return Err(e);
    }
    Ok(())
}

// Entries.

#[derive(Debug)]
#[allow(inconsistent_fields)]
pub enum PluginScanStatus {
    Certified { cached: bool, smoke: SmokeSummary, cert_path: String },
    Failed { reason: String },
    Skipped { reason: String },
}

/// What a scan found in one place.
#[derive(Debug)]
pub struct PluginScanEntry {
    pub name: String,
    pub plugin_dir: String,
    pub layout: String,
    pub package_id: Option<String>,
    pub model_slug: String,
    pub rule_line: Option<String>,
    pub riichi_style: Option<String>,
    pub package_hash: Option<String>,
    pub status: PluginScanStatus,
}

#[allow(inconsistent_fields)]
pub ghost enum StatusFacts {
    Certified { cached: bool, smoke: SmokeSummary, cert_path: Seq<char> },
    Failed { reason: Seq<char> },
    Skipped { reason: Seq<char> },
}

/// An entry, as facts.
pub ghost struct EntryFacts {
    pub name: Seq<char>,
    pub plugin_dir: Seq<char>,
    pub layout: Seq<char>,
    pub package_id: Option<Seq<char>>,
    pub model_slug: Seq<char>,
    pub rule_line: Option<Seq<char>>,
    pub riichi_style: Option<Seq<char>>,
    pub package_hash: Option<Seq<char>>,
    pub status: StatusFacts,
}

impl View for PluginScanStatus {
    type V = StatusFacts;

    open spec fn view(&self) -> StatusFacts {
        match *self {
            PluginScanStatus::Certified { cached, smoke, cert_path } => StatusFacts::Certified {
                cached,
                smoke,
                cert_path: cert_path@,
            },
            PluginScanStatus::Failed { reason } => StatusFacts::Failed { reason: reason@ },
            PluginScanStatus::Skipped { reason } => StatusFacts::Skipped { reason: reason@ },
        }
    }
}

impl View for PluginScanEntry {
    type V = EntryFacts;

    open spec fn view(&self) -> EntryFacts {
        EntryFacts {
            name: self.name@,
            plugin_dir: self.plugin_dir@,
            layout: self.layout@,
            package_id: string_view(self.package_id),
            model_slug: self.model_slug@,
            rule_line: string_view(self.rule_line),
            riichi_style: string_view(self.riichi_style),
            package_hash: string_view(self.package_hash),
            status: self.status@,
        }
    }
}

/// The name of a directory, as a scan shows it.
pub open spec fn dir_name(dir: Seq<char>) -> Seq<char> {
    match file_name(dir) {
        Some(n) => n,
        None => "<unknown>"@,
    }
}

fn dir_name_of(dir: &str) -> (r: String)
    ensures
        r@ == dir_name(dir@),
{
    match last_part(dir) {
        Some(n) => n,
        None => owned("<unknown>"),
    }
}

/// A place where nothing more than a directory is known.
pub open spec fn bare_entry(dir: Seq<char>, layout: Seq<char>, package_id: Option<Seq<char>>, status: StatusFacts) -> EntryFacts {
    EntryFacts {
        name: dir_name(dir),
        plugin_dir: dir,
        layout,
        package_id,
        model_slug: dir_name(dir),
        rule_line: None,
        riichi_style: None,
        package_hash: None,
        status,
    }
}

impl PluginScanEntry {
    /// A plugin that could not be read.
    pub fn failed(plugin_dir: &str, reason: String) -> (r: Self)
        ensures
            r@ == bare_entry(plugin_dir@, "legacy"@, None, StatusFacts::Failed { reason: reason@ }),
    {
        PluginScanEntry {
            name: dir_name_of(plugin_dir),
            plugin_dir: owned(plugin_dir),
            layout: owned("legacy"),
            package_id: None,
            model_slug: dir_name_of(plugin_dir),
            rule_line: None,
            riichi_style: None,
            package_hash: None,
            status: PluginScanStatus::Failed { reason },
        }
    }

    /// A package that could not be read, or breaks a rule as a whole.
    pub fn failed_package(package_dir: &str, package_id: Option<String>, reason: String) -> (r: Self)
        ensures
            r@ == bare_entry(package_dir@, "package"@, string_view(package_id), StatusFacts::Failed { reason: reason@ }),
    {
        PluginScanEntry {
            name: dir_name_of(package_dir),
            plugin_dir: owned(package_dir),
            layout: owned("package"),
            package_id,
            model_slug: dir_name_of(package_dir),
            rule_line: None,
            riichi_style: None,
            package_hash: None,
            status: PluginScanStatus::Failed { reason },
        }
    }

    /// A directory that could not be looked into.
    pub fn skipped(dir: &str, reason: String) -> (r: Self)
        ensures
            r@ == bare_entry(dir@, "legacy"@, None, StatusFacts::Skipped { reason: reason@ }),
    {
        PluginScanEntry {
            name: dir_name_of(dir),
            plugin_dir: owned(dir),
            layout: owned("legacy"),
            package_id: None,
            model_slug: dir_name_of(dir),
            rule_line: None,
            riichi_style: None,
            package_hash: None,
            status: PluginScanStatus::Skipped { reason },
        }
    }
}

/// What is known of a plugin or model once its digest is.
pub struct Candidate {
    pub dir: String,
    pub layout: String,
    pub package_id: Option<String>,
    pub slug: String,
    pub protocol: String,
    pub rule_line: RuleLine,
    pub riichi_style: RiichiStyle,
    pub package_hash: String,
    pub cert_path: String,
}

/// The entry of a candidate.
pub open spec fn candidate_entry(c: Candidate, status: StatusFacts) -> EntryFacts {
    EntryFacts {
        name: c.slug@,
        plugin_dir: c.dir@,
        layout: c.layout@,
        package_id: string_view(c.package_id),
        model_slug: c.slug@,
        rule_line: Some(c.rule_line.spec_wire_value()),
        riichi_style: Some(style_text(c.riichi_style)),
        package_hash: Some(c.package_hash@),
        status,
    }
}

fn copy_text(s: &Option<String>) -> (r: Option<String>)
    ensures
        string_view(r) == string_view(*s),
{
    match s {
        Some(t) => Some(t.clone()),
        None => None,
    }
}

fn entry_of(c: &Candidate, status: PluginScanStatus) -> (r: PluginScanEntry)
    ensures
        r@ == candidate_entry(*c, status@),
{
    PluginScanEntry {
        name: c.slug.clone(),
        plugin_dir: c.dir.clone(),
        layout: c.layout.clone(),
        package_id: copy_text(&c.package_id),
        model_slug: c.slug.clone(),
        rule_line: Some(owned(c.rule_line.wire_value())),
        riichi_style: Some(owned(style_str(c.riichi_style))),
        package_hash: Some(c.package_hash.clone()),
        status,
    }
}

/// The entry of a candidate whose certificate still holds; without one it has to be tried.
pub fn cached_entry(c: &Candidate, cert: &Option<PluginCertificate>) -> (r: Option<PluginScanEntry>)
    ensures
        match r {
            Some(e) => *cert is Some && is_certified((*cert)->0, c.package_hash@, c.protocol@, c.rule_line) && e@
                == candidate_entry(
                *c,
                StatusFacts::Certified { cached: true, smoke: (*cert)->0.smoke, cert_path: c.cert_path@ },
            ),
            None => *cert is None || !is_certified((*cert)->0, c.package_hash@, c.protocol@, c.rule_line),
        },
{
    match cert {
        None => None,
        Some(k) => {
            if certificate_holds(k, c.package_hash.as_str(), c.protocol.as_str(), c.rule_line) {
                Some(
                    entry_of(
                        c,
                        PluginScanStatus::Certified { cached: true, smoke: k.smoke, cert_path: c.cert_path.clone() },
                    ),
                )
            } else {
                None
            }
        },
    }
}

/// The entry of a candidate that was tried.
pub fn tried_entry(c: &Candidate, tried: Result<SmokeSummary, String>) -> (r: PluginScanEntry)
    ensures
        r@ == candidate_entry(
            *c,
            match tried {
                Ok(smoke) => StatusFacts::Certified { cached: false, smoke, cert_path: c.cert_path@ },
                Err(reason) => StatusFacts::Failed { reason: reason@ },
            },
        ),
{
    match tried {
        Ok(smoke) => entry_of(
            c,
            PluginScanStatus::Certified { cached: false, smoke, cert_path: c.cert_path.clone() },
        ),
        Err(reason) => entry_of(c, PluginScanStatus::Failed { reason }),
    }
}

/// A plugin whose manifest breaks a rule, or whose digest is not known.
pub open spec fn plugin_failure(dir: Seq<char>, manifest: PluginManifest, reason: Seq<char>) -> EntryFacts {
    EntryFacts {
        name: manifest.name@,
        plugin_dir: dir,
        layout: "legacy"@,
        package_id: None,
        model_slug: manifest.name@,
        rule_line: Some(manifest.rule_line@),
        riichi_style: Some(manifest.riichi_style@),
        package_hash: None,
        status: StatusFacts::Failed { reason },
    }
}

/// A plugin whose manifest breaks a rule, or whose digest is not known.
pub fn failed_plugin(dir: &str, manifest: &PluginManifest, reason: String) -> (r: PluginScanEntry)
    ensures
        r@ == plugin_failure(dir@, *manifest, reason@),
{
    PluginScanEntry {
        name: manifest.name.clone(),
        plugin_dir: owned(dir),
        layout: owned("legacy"),
        package_id: None,
        model_slug: manifest.name.clone(),
        rule_line: Some(manifest.rule_line.clone()),
        riichi_style: Some(manifest.riichi_style.clone()),
        package_hash: None,
        status: PluginScanStatus::Failed { reason },
    }
}

/// What a model is called in a scan.
pub open spec fn shown_slug(package_id: Seq<char>, id: Seq<char>) -> Seq<char> {
    if is_blank(id) { package_id } else { id }
}

/// A model that breaks a rule, or whose digest is not known.
pub open spec fn model_failure(
    dir: Seq<char>,
    package_id: Seq<char>,
    id: Seq<char>,
    rule_line: Seq<char>,
    riichi_style: Seq<char>,
    reason: Seq<char>,
) -> EntryFacts {
    EntryFacts {
        name: shown_slug(package_id, id),
        plugin_dir: dir,
        layout: "package"@,
        package_id: Some(package_id),
        model_slug: shown_slug(package_id, id),
        rule_line: Some(rule_line),
        riichi_style: Some(riichi_style),
        package_hash: None,
        status: StatusFacts::Failed { reason },
    }
}

/// A model that breaks a rule, or whose digest is not known.
pub fn failed_model(dir: &str, package_id: &str, id: &str, rule_line: &str, riichi_style: &str, reason: String) -> (r:
    PluginScanEntry)
    ensures
        r@ == model_failure(dir@, package_id@, id@, rule_line@, riichi_style@, reason@),
{
    let slug = if trim(id).as_str().is_empty() { package_id } else { id };
    PluginScanEntry {
        name: owned(slug),
        plugin_dir: owned(dir),
        layout: owned("package"),
        package_id: Some(owned(package_id)),
        model_slug: owned(slug),
        rule_line: Some(owned(rule_line)),
        riichi_style: Some(owned(riichi_style)),
        package_hash: None,
        status: PluginScanStatus::Failed { reason },
    }
}

// Reports.

/// What a scan found.
#[derive(Debug)]
pub struct PluginScanReport {
    pub models_root: String,
    pub security_warning: &'static str,
    pub certification_limit: &'static str,
    pub scanned: usize,
    pub certified: usize,
    pub failed: usize,
    pub skipped: usize,
    pub plugins: Vec<PluginScanEntry>,
}

pub open spec fn count_certified(s: Seq<PluginScanEntry>) -> nat
    decreases s.len(),
{
    if s.len() == 0 { 0 } else { count_certified(s.drop_last()) + if s.last().status is Certified { 1nat } else { 0 } }
}

pub open spec fn count_failed(s: Seq<PluginScanEntry>) -> nat
    decreases s.len(),
{
    if s.len() == 0 { 0 } else { count_failed(s.drop_last()) + if s.last().status is Failed { 1nat } else { 0 } }
}

pub open spec fn count_skipped(s: Seq<PluginScanEntry>) -> nat
    decreases s.len(),
{
    if s.len() == 0 { 0 } else { count_skipped(s.drop_last()) + if s.last().status is Skipped { 1nat } else { 0 } }
}

/// The report of the entries of a scan.
pub fn scan_report(models_root: &str, plugins: Vec<PluginScanEntry>) -> (r: PluginScanReport)
    ensures
        r.models_root@ == models_root@,
        r.security_warning@ == PLUGIN_SECURITY_WARNING@,
        r.certification_limit@ == PLUGIN_CERTIFICATION_LIMIT@,
        r.plugins == plugins,
        r.scanned == plugins@.len(),
        r.certified == count_certified(plugins@),
        r.failed == count_failed(plugins@),
        r.skipped == count_skipped(plugins@),
        r.scanned == r.certified + r.failed + r.skipped,
{
    let mut certified: usize = 0;
    let mut failed: usize = 0;
    let mut skipped: usize = 0;
    let mut i: usize = 0;
    while i < plugins.len()
        invariant
            i <= plugins@.len(),
            certified + failed + skipped == i,
            certified == count_certified(plugins@.take(i as int)),
            failed == count_failed(plugins@.take(i as int)),
            skipped == count_skipped(plugins@.take(i as int)),
        decreases plugins@.len() - i,
    {
        assert(plugins@.take(i + 1).drop_last() =~= plugins@.take(i as int));
        assert(plugins@.take(i + 1).last() == plugins@[i as int]);
        match &plugins[i].status {
            PluginScanStatus::Certified { .. } => {
                certified = certified + 1;
            },
            PluginScanStatus::Failed { .. } => {
                failed = failed + 1;
            },
            PluginScanStatus::Skipped { .. } => {
                skipped = skipped + 1;
            },
        }
        i = i + 1;
    }
    assert(plugins@.take(i as int) =~= plugins@);
    PluginScanReport {
        models_root: owned(models_root),
        security_warning: PLUGIN_SECURITY_WARNING,
        certification_limit: PLUGIN_CERTIFICATION_LIMIT,
        scanned: plugins.len(),
        certified,
        failed,
        skipped,
        plugins,
    }
}

// Runtimes.

/// A model that may run.
#[derive(Debug)]
pub struct CertifiedPluginRuntime {
    pub model_id: String,
    pub name: String,
    pub plugin_dir: String,
    pub rule_line: String,
    pub riichi_style: String,
    pub protocol: String,
    pub launch_cmd: String,
    pub launch_args: Vec<String>,
    pub package_hash: String,
    pub cached: bool,
    pub smoke: SmokeSummary,
}

/// A model that may run, as facts.
pub ghost struct RuntimeFacts {
    pub model_id: Seq<char>,
    pub name: Seq<char>,
    pub plugin_dir: Seq<char>,
    pub rule_line: Seq<char>,
    pub riichi_style: Seq<char>,
    pub protocol: Seq<char>,
    pub launch_cmd: Seq<char>,
    pub launch_args: Seq<Seq<char>>,
    pub package_hash: Seq<char>,
    pub cached: bool,
    pub smoke: SmokeSummary,
}

impl View for CertifiedPluginRuntime {
    type V = RuntimeFacts;

    open spec fn view(&self) -> RuntimeFacts {
        RuntimeFacts {
            model_id: self.model_id@,
            name: self.name@,
            plugin_dir: self.plugin_dir@,
            rule_line: self.rule_line@,
            riichi_style: self.riichi_style@,
            protocol: self.protocol@,
            launch_cmd: self.launch_cmd@,
            launch_args: strings_view(self.launch_args@),
            package_hash: self.package_hash@,
            cached: self.cached,
            smoke: self.smoke,
        }
    }
}

/// The manifest at an entry's place, as it is now.
pub enum FoundManifest {
    Plugin(PluginManifest),
    /// A package, with the paths of its files.
    Package(PackageManifest, Vec<String>),
    Unreadable,
}

/// The model of a name and a game. A package may have one name for several games.
pub open spec fn find_model(models: Seq<PackageModelManifest>, id: Seq<char>, rule_line: Seq<char>) -> Option<PackageModelManifest>
    decreases models.len(),
{
    if models.len() == 0 {
        None
    } else if models[0].id@ == id && models[0].rule_line@ == rule_line {
        Some(models[0])
    } else {
        find_model(models.drop_first(), id, rule_line)
    }
}

/// What an entry of a plugin may run.
pub open spec fn plugin_runtime(e: EntryFacts, m: PluginManifest) -> Option<RuntimeFacts> {
    match (e.status, e.rule_line, e.package_hash) {
        (StatusFacts::Certified { cached, smoke, .. }, Some(line), Some(hash)) => match line_named(line) {
            Err(_) => None,
            Ok(expected) => match valid_plugin(m, expected) {
                Err(_) => None,
                Ok(v) => Some(
                    RuntimeFacts {
                        model_id: model_id(v.name, v.rule_line, hash),
                        name: v.name,
                        plugin_dir: e.plugin_dir,
                        rule_line: v.rule_line.spec_wire_value(),
                        riichi_style: style_text(v.riichi_style),
                        protocol: v.protocol,
                        launch_cmd: launch_path(e.plugin_dir, m.launch.cmd@),
                        launch_args: strings_view(m.launch.args@),
                        package_hash: hash,
                        cached,
                        smoke,
                    },
                ),
            },
        },
        _ => None,
    }
}

/// What an entry of a package may run.
pub open spec fn package_runtime(e: EntryFacts, m: PackageManifest, files: Seq<Seq<char>>) -> Option<RuntimeFacts> {
    match (e.status, e.rule_line, e.package_hash) {
        (StatusFacts::Certified { cached, smoke, .. }, Some(line), Some(hash)) => match valid_package(e.plugin_dir, m, files) {
            Err(_) => None,
            Ok(p) => match find_model(m.models@, e.model_slug, line) {
                None => None,
                Some(model) => match valid_model(e.plugin_dir, p, model, files) {
                    Err(_) => None,
                    Ok(v) => Some(
                        RuntimeFacts {
                            model_id: model_id(v.slug, v.rule_line, hash),
                            name: v.slug,
                            plugin_dir: e.plugin_dir,
                            rule_line: v.rule_line.spec_wire_value(),
                            riichi_style: style_text(v.riichi_style),
                            protocol: p.protocol,
                            launch_cmd: p.translator.launch_cmd,
                            launch_args: v.launch_args,
                            package_hash: hash,
                            cached,
                            smoke,
                        },
                    ),
                },
            },
        },
        _ => None,
    }
}

/// What an entry may run, given the manifest at its place.
pub open spec fn entry_runtime(e: EntryFacts, found: FoundManifest) -> Option<RuntimeFacts> {
    match found {
        FoundManifest::Unreadable => None,
        FoundManifest::Plugin(m) => if e.layout == "package"@ { None } else { plugin_runtime(e, m) },
        FoundManifest::Package(m, files) => if e.layout == "package"@ {
            package_runtime(e, m, strings_view(files@))
        } else {
            None
        },
    }
}

/// A runtime that may be there.
pub open spec fn runtime_option(r: Option<CertifiedPluginRuntime>) -> Option<RuntimeFacts> {
    match r {
        Some(v) => Some(v@),
        None => None,
    }
}

fn locate_model<'a>(models: &'a Vec<PackageModelManifest>, id: &str, rule_line: &str) -> (r: Option<&'a PackageModelManifest>)
    ensures
        match r {
            Some(m) => find_model(models@, id@, rule_line@) == Some(*m),
            None => find_model(models@, id@, rule_line@) is None,
        },
{
    let mut i: usize = 0;
    assert(models@.skip(0) =~= models@);
    while i < models.len()
        invariant
            i <= models@.len(),
            find_model(models@, id@, rule_line@) == find_model(models@.skip(i as int), id@, rule_line@),
        decreases models@.len() - i,
    {
        assert(models@.skip(i as int)[0] == models@[i as int]);
        assert(models@.skip(i as int).drop_first() =~= models@.skip(i + 1));
        if same(models[i].id.as_str(), id) && same(models[i].rule_line.as_str(), rule_line) {
            return Some(&models[i]);
        }
        i = i + 1;
    }
    None
}

fn runtime_of_plugin(e: &PluginScanEntry, m: &PluginManifest) -> (r: Option<CertifiedPluginRuntime>)
    ensures
        runtime_option(r) == plugin_runtime(e@, *m),
{
    match (&e.status, &e.rule_line, &e.package_hash) {
        (PluginScanStatus::Certified { cached, smoke, .. }, Some(line), Some(hash)) => match rule_line_from(line.as_str()) {
            Err(_) => None,
            Ok(expected) => match validate_manifest(m, expected) {
                Err(_) => None,
                Ok(v) => Some(
                    CertifiedPluginRuntime {
                        model_id: plugin_model_id(v.name.as_str(), v.rule_line, hash.as_str()),
                        rule_line: owned(v.rule_line.wire_value()),
                        riichi_style: owned(style_str(v.riichi_style)),
                        name: v.name,
                        plugin_dir: e.plugin_dir.clone(),
                        protocol: v.protocol,
                        launch_cmd: resolve_launch_cmd(e.plugin_dir.as_str(), m.launch.cmd.as_str()),
                        launch_args: copy_strings(&m.launch.args),
                        package_hash: hash.clone(),
                        cached: *cached,
                        smoke: *smoke,
                    },
                ),
            },
        },
        _ => None,
    }
}

fn runtime_of_package(e: &PluginScanEntry, m: &PackageManifest, files: &Vec<String>) -> (r: Option<CertifiedPluginRuntime>)
    ensures
        runtime_option(r) == package_runtime(e@, *m, strings_view(files@)),
{
    match (&e.status, &e.rule_line, &e.package_hash) {
        (PluginScanStatus::Certified { cached, smoke, .. }, Some(line), Some(hash)) => {
            let p = match validate_package_manifest(e.plugin_dir.as_str(), m, files) {
                Ok(p) => p,
                Err(_) => {
                    return None;
                },
            };
            let model = match locate_model(&m.models, e.model_slug.as_str(), line.as_str()) {
                Some(model) => model,
                None => {
                    return None;
                },
            };
            match validate_package_model(e.plugin_dir.as_str(), &p, model, files) {
                Err(_) => None,
                Ok(v) => Some(
                    CertifiedPluginRuntime {
                        model_id: plugin_model_id(v.slug.as_str(), v.rule_line, hash.as_str()),
                        rule_line: owned(v.rule_line.wire_value()),
                        riichi_style: owned(style_str(v.riichi_style)),
                        name: v.slug,
                        plugin_dir: e.plugin_dir.clone(),
                        protocol: p.protocol,
                        launch_cmd: p.translator.launch_cmd,
                        launch_args: v.launch_args,
                        package_hash: hash.clone(),
                        cached: *cached,
                        smoke: *smoke,
                    },
                ),
            }
        },
        _ => None,
    }
}

/// What an entry may run, given the manifest at its place.
pub fn certified_runtime_from_scan_entry(entry: &PluginScanEntry, found: &FoundManifest) -> (r: Option<CertifiedPluginRuntime>)
    ensures
        runtime_option(r) == entry_runtime(entry@, *found),
{
    match found {
        FoundManifest::Unreadable => None,
        FoundManifest::Plugin(m) => {
            if same(entry.layout.as_str(), "package") {
                None
            } else {
                runtime_of_plugin(entry, m)
            }
        },
        FoundManifest::Package(m, files) => {
            if same(entry.layout.as_str(), "package") {
                runtime_of_package(entry, m, files)
            } else {
                None
            }
        },
    }
}

/// What the entries of a report may run, given the manifests at their places.
pub open spec fn runtimes(entries: Seq<PluginScanEntry>, found: Seq<FoundManifest>) -> Seq<RuntimeFacts>
    decreases entries.len(),
{
    if entries.len() == 0 || found.len() < entries.len() {
        Seq::empty()
    } else {
        let rest = runtimes(entries.drop_last(), found);
        match entry_runtime(entries.last()@, found[entries.len() - 1]) {
            Some(r) => rest.push(r),
            None => rest,
        }
    }
}

pub open spec fn runtimes_view(v: Seq<CertifiedPluginRuntime>) -> Seq<RuntimeFacts> {
    Seq::new(v.len(), |i: int| v[i]@)
}

/// What the entries of a report may run, given the manifests at their places, in their order.
pub fn certified_plugin_runtimes_from_report(report: &PluginScanReport, found: &Vec<FoundManifest>) -> (r: Vec<
    CertifiedPluginRuntime,
>)
    requires
        found@.len() == report.plugins@.len(),
    ensures
        runtimes_view(r@) == runtimes(report.plugins@, found@),
{
    let mut out: Vec<CertifiedPluginRuntime> = Vec::new();
    let mut i: usize = 0;
    assert(runtimes_view(out@) =~= Seq::empty());
    while i < report.plugins.len()
        invariant
            i <= report.plugins@.len(),
            found@.len() == report.plugins@.len(),
            runtimes_view(out@) == runtimes(report.plugins@.take(i as int), found@),
        decreases report.plugins@.len() - i,
    {
        let ghost before = out@;
        assert(report.plugins@.take(i + 1).drop_last() =~= report.plugins@.take(i as int));
        assert(report.plugins@.take(i + 1).last() == report.plugins@[i as int]);
        match certified_runtime_from_scan_entry(&report.plugins[i], &found[i]) {
            Some(v) => {
                out.push(v);
                assert(runtimes_view(out@) =~= runtimes_view(before).push(v@));
            },
            None => {},
        }
        i = i + 1;
    }
    assert(report.plugins@.take(i as int) =~= report.plugins@);
    out
}

/// Only what is certified may run.
pub proof fn only_certified_entries_run(e: EntryFacts, found: FoundManifest)
    ensures
        entry_runtime(e, found) is Some ==> e.status is Certified && e.package_hash == Some(
            entry_runtime(e, found)->0.package_hash,
        ),
{
}

// Drivers.

/// Where a certified model runs.
#[derive(Debug, Clone, Copy, PartialEq, Eq, Structural, Hash)]
pub enum CertifiedRuntimeDriverKind {
    LocalProcess,
    RemoteProvider,
}

impl CertifiedRuntimeDriverKind {
    pub open spec fn spec_wire_value(self) -> Seq<char> {
        match self {
            CertifiedRuntimeDriverKind::LocalProcess => "local_process"@,
            CertifiedRuntimeDriverKind::RemoteProvider => "remote_provider"@,
        }
    }

    pub fn wire_value(self) -> (r: &'static str)
        ensures
            r@ == self.spec_wire_value(),
    {
        match self {
            CertifiedRuntimeDriverKind::LocalProcess => "local_process",
            CertifiedRuntimeDriverKind::RemoteProvider => "remote_provider",
        }
    }
}

/// Where a model runs.
pub open spec fn driver_kind(kind: KindFacts) -> CertifiedRuntimeDriverKind {
    match kind {
        KindFacts::Remote { .. } => CertifiedRuntimeDriverKind::RemoteProvider,
        KindFacts::RuntimeRemote { .. } => CertifiedRuntimeDriverKind::RemoteProvider,
        KindFacts::Onnx { .. } => CertifiedRuntimeDriverKind::LocalProcess,
        KindFacts::RuntimeLocal { .. } => CertifiedRuntimeDriverKind::LocalProcess,
    }
}

fn driver_kind_of_package_model(kind: &PackageModelKind) -> (r: CertifiedRuntimeDriverKind)
    ensures
        r == driver_kind(kind@),
{
    match kind {
        PackageModelKind::Remote { .. } | PackageModelKind::RuntimeRemote { .. } => CertifiedRuntimeDriverKind::RemoteProvider,
        PackageModelKind::Onnx { .. } | PackageModelKind::RuntimeLocal { .. } => CertifiedRuntimeDriverKind::LocalProcess,
    }
}

pub open spec fn paths_of(files: Seq<FileFacts>) -> Seq<Seq<char>> {
    Seq::new(files.len(), |i: int| files[i].path)
}

/// Where a certified model runs, as its package says now; its digest has to be the certified one.
pub open spec fn runtime_driver(r: RuntimeFacts, manifest: Option<PackageManifest>, files: Seq<FileFacts>) -> Result<
    CertifiedRuntimeDriverKind,
    Seq<char>,
> {
    match manifest {
        None => Ok(CertifiedRuntimeDriverKind::LocalProcess),
        Some(m) => match valid_package(r.plugin_dir, m, paths_of(files)) {
            Err(e) => Err(e),
            Ok(p) => match find_model(m.models@, r.name, r.rule_line) {
                None => Err("certified runtime model is missing from package manifest"@),
                Some(model) => match valid_model(r.plugin_dir, p, model, paths_of(files)) {
                    Err(e) => Err(e),
                    Ok(v) => match model_digest(m, model, v.kind, files) {
                        Err(e) => Err(e),
                        Ok(d) => if d != r.package_hash {
                            Err("certified runtime package digest changed while resolving driver kind"@)
                        } else {
                            Ok(driver_kind(v.kind))
                        },
                    },
                },
            },
        },
    }
}

fn file_paths(files: &Vec<PackageFile>) -> (r: Vec<String>)
    ensures
        strings_view(r@) == paths_of(files_view(files@)),
{
    let mut out: Vec<String> = Vec::new();
    let mut i: usize = 0;
    while i < files.len()
        invariant
            i <= files@.len(),
            out@.len() == i,
            forall|j: int| 0 <= j < i ==> (#[trigger] out@[j])@ == files@[j].path@,
        decreases files@.len() - i,
    {
        out.push(files[i].path.clone());
        i = i + 1;
    }
    assert(strings_view(out@) =~= paths_of(files_view(files@)));
    out
}

/// Where a certified model runs: `manifest` and `files` are those of its package, if it is one.
pub fn certified_runtime_driver_kind(runtime: &CertifiedPluginRuntime, manifest: &Option<PackageManifest>, files: Vec<PackageFile>) -> (r:
    Result<CertifiedRuntimeDriverKind, String>)
    ensures
        match r {
            Ok(k) => runtime_driver(runtime@, *manifest, files_view(files@)) == Ok::<CertifiedRuntimeDriverKind, Seq<char>>(k),
            Err(e) => runtime_driver(runtime@, *manifest, files_view(files@)) == Err::<CertifiedRuntimeDriverKind, Seq<char>>(
                e@,
            ),
        },
{
    let m = match manifest {
        None => {
            return Ok(CertifiedRuntimeDriverKind::LocalProcess);
        },
        Some(m) => m,
    };
    let paths = file_paths(&files);
    let package = match validate_package_manifest(runtime.plugin_dir.as_str(), m, &paths) {
        Ok(p) => p,
        Err(e) => {
            return Err(e);
        },
    };
    let model = match locate_model(&m.models, runtime.name.as_str(), runtime.rule_line.as_str()) {
        Some(model) => model,
        None => {
            return Err(owned("certified runtime model is missing from package manifest"));
        },
    };
    let v = match validate_package_model(runtime.plugin_dir.as_str(), &package, model, &paths) {
        Ok(v) => v,
        Err(e) => {
            return Err(e);
        },
    };
    proof {
        let held = files_view(files@);
        assert forall|path: Seq<char>| #[trigger] paths_of(held).contains(path) implies holds_file(held, path) by {
            let i = choose|i: int| 0 <= i < held.len() && paths_of(held)[i] == path;
            assert(held[i].path == path);
        }
        valid_models_name_files(runtime.plugin_dir@, package@, *model, paths_of(held), held);
    }
    let digest = match package_model_hash(m, model, &v.kind, files) {
        Ok(d) => d,
        Err(e) => {
            return Err(e);
        },
    };
    if !same(digest.as_str(), runtime.package_hash.as_str()) {
        return Err(owned("certified runtime package digest changed while resolving driver kind"));
    }
    Ok(driver_kind_of_package_model(&v.kind))
}

} // verus!
