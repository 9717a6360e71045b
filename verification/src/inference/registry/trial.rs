//! From a manifest and the files beside it to an engine that can be tried.

use vstd::prelude::*;
use vstd::string::*;
use crate::inference::contract::{string_view, strings_view, RuleLine, FLYA_INFERENCE_PROTOCOL_V1};
use crate::inference::registry::digest::{
    files_view, holds_file, model_digest, package_hash, package_model_hash, plugin_digest, valid_models_name_files,
    PackageFile,
};
use crate::inference::registry::manifest::{
    copy_strings, valid_model, valid_package, valid_plugin, validate_manifest, validate_package_manifest,
    validate_package_model, ModelFacts, PackageFacts, PackageManifest, PackageModelManifest, PluginFacts, PluginManifest,
    ValidatedManifest, ValidatedPackage,
};
use crate::inference::registry::names::{
    below, cert_path, join_path, launch_path, package_cert_path, resolve_launch_cmd, CERT_FILE_NAME,
};
use crate::inference::registry::scan::{
    bare_entry, failed_model, failed_plugin, model_failure, plugin_failure, style_str, style_text, Candidate,
    EntryFacts, PluginScanEntry, StatusFacts,
};
use crate::inference::request::EngineProcessConfig;
use crate::json::{Json, JsonView};
use crate::text::{dec, dec_u64, join2, join3, owned, same};

verus! {

/// An engine that can be tried, and how it is started.
pub struct Trial {
    pub candidate: Candidate,
    pub engine: ValidatedManifest,
    pub launch_cmd: String,
    pub launch_args: Vec<String>,
}

/// The trial of a plugin that meets the rules.
pub open spec fn is_plugin_trial(t: Trial, dir: Seq<char>, m: PluginManifest, v: PluginFacts, hash: Seq<char>) -> bool {
    &&& t.candidate.dir@ == dir
    &&& t.candidate.layout@ == "legacy"@
    &&& t.candidate.package_id is None
    &&& t.candidate.slug@ == v.name
    &&& t.candidate.protocol@ == v.protocol
    &&& t.candidate.rule_line == v.rule_line
    &&& t.candidate.riichi_style == v.riichi_style
    &&& t.candidate.package_hash@ == hash
    &&& t.candidate.cert_path@ == below(dir, CERT_FILE_NAME@)
    &&& t.engine@ == v
    &&& t.launch_cmd@ == launch_path(dir, m.launch.cmd@)
    &&& strings_view(t.launch_args@) == strings_view(m.launch.args@)
}

/// A plugin as far as it can be judged without starting it. `contents` are its files, or why its
/// directory could not be read.
pub fn scan_plugin(dir: &str, manifest: &PluginManifest, expected: RuleLine, contents: Result<Vec<PackageFile>, String>) -> (r:
    Result<Trial, PluginScanEntry>)
    ensures
        match valid_plugin(*manifest, expected) {
            Err(reason) => r is Err && r->Err_0@ == plugin_failure(dir@, *manifest, reason),
            Ok(v) => match contents {
                Err(e) => r is Err && r->Err_0@ == plugin_failure(dir@, *manifest, "failed to hash package: "@ + e@),
                Ok(files) => match plugin_digest(files_view(files@)) {
                    Err(e) => r is Err && r->Err_0@ == plugin_failure(dir@, *manifest, "failed to hash package: "@ + e),
                    Ok(hash) => r is Ok && is_plugin_trial(r->Ok_0, dir@, *manifest, v, hash),
                },
            },
        },
{
    let validated = match validate_manifest(manifest, expected) {
        Ok(v) => v,
        Err(reason) => {
            return Err(failed_plugin(dir, manifest, reason));
        },
    };
    let digested = match contents {
        Ok(files) => package_hash(files),
        Err(e) => Err(e),
    };
    let hash = match digested {
        Ok(h) => h,
        Err(e) => {
            return Err(failed_plugin(dir, manifest, join2("failed to hash package: ", e.as_str())));
        },
    };
    let candidate = Candidate {
        dir: owned(dir),
        layout: owned("legacy"),
        package_id: None,
        slug: validated.name.clone(),
        protocol: validated.protocol.clone(),
        rule_line: validated.rule_line,
        riichi_style: validated.riichi_style,
        package_hash: hash,
        cert_path: join_path(dir, CERT_FILE_NAME),
    };
    Ok(
        Trial {
            candidate,
            engine: validated,
            launch_cmd: resolve_launch_cmd(dir, manifest.launch.cmd.as_str()),
            launch_args: copy_strings(&manifest.launch.args),
        },
    )
}

/// What stands in a scan for a package that fails as a whole.
pub open spec fn package_failure(dir: Seq<char>, m: PackageManifest, reason: Seq<char>) -> EntryFacts {
    bare_entry(dir, "package"@, Some(m.package_id@), StatusFacts::Failed { reason })
}

/// A package as a whole: it meets the rules and has models.
pub fn scan_package(dir: &str, manifest: &PackageManifest, files: &Vec<String>) -> (r: Result<ValidatedPackage, PluginScanEntry>)
    ensures
        match valid_package(dir@, *manifest, strings_view(files@)) {
            Err(reason) => r is Err && r->Err_0@ == package_failure(dir@, *manifest, reason),
            Ok(p) => if manifest.models@.len() == 0 {
                r is Err && r->Err_0@ == package_failure(dir@, *manifest, "at least one [[models]] entry is required"@)
            } else {
                r is Ok && r->Ok_0@ == p
            },
        },
{
    match validate_package_manifest(dir, manifest, files) {
        Err(reason) => Err(PluginScanEntry::failed_package(dir, Some(manifest.package_id.clone()), reason)),
        Ok(p) => {
            if manifest.models.len() == 0 {
                Err(
                    PluginScanEntry::failed_package(
                        dir,
                        Some(manifest.package_id.clone()),
                        owned("at least one [[models]] entry is required"),
                    ),
                )
            } else {
                Ok(p)
            }
        },
    }
}

/// The trial of a model that meets the rules.
pub open spec fn is_model_trial(t: Trial, dir: Seq<char>, package: PackageFacts, v: ModelFacts, hash: Seq<char>) -> bool {
    &&& t.candidate.dir@ == dir
    &&& t.candidate.layout@ == "package"@
    &&& string_view(t.candidate.package_id) == Some(package.package_id)
    &&& t.candidate.slug@ == v.slug
    &&& t.candidate.protocol@ == package.protocol
    &&& t.candidate.rule_line == v.rule_line
    &&& t.candidate.riichi_style == v.riichi_style
    &&& t.candidate.package_hash@ == hash
    &&& t.candidate.cert_path@ == cert_path(dir, v.rule_line, v.slug)
    &&& t.engine@ == PluginFacts {
        name: v.slug,
        protocol: package.protocol,
        rule_line: v.rule_line,
        riichi_style: v.riichi_style,
    }
    &&& t.launch_cmd@ == package.translator.launch_cmd
    &&& strings_view(t.launch_args@) == v.launch_args
}

/// What stands in a scan for a model whose digest is not known.
pub open spec fn undigested(dir: Seq<char>, package: PackageFacts, m: PackageModelManifest, v: ModelFacts, reason: Seq<char>) -> EntryFacts {
    model_failure(
        dir,
        package.package_id,
        m.id@,
        v.rule_line.spec_wire_value(),
        style_text(v.riichi_style),
        "failed to hash package model: "@ + reason,
    )
}

/// A model of a package as far as it can be judged without starting it. `files` are the paths of the
/// package's files; `contents` are the files, or why a directory could not be read.
pub fn scan_package_model(
    dir: &str,
    manifest: &PackageManifest,
    package: &ValidatedPackage,
    model: &PackageModelManifest,
    files: &Vec<String>,
    contents: Result<Vec<PackageFile>, String>,
) -> (r: Result<Trial, PluginScanEntry>)
    requires
        contents is Ok ==> forall|path: Seq<char>| #[trigger]
            strings_view(files@).contains(path) ==> holds_file(files_view(contents->Ok_0@), path),
    ensures
        match valid_model(dir@, package@, *model, strings_view(files@)) {
            Err(reason) => r is Err && r->Err_0@ == model_failure(
                dir@,
                package@.package_id,
                model.id@,
                model.rule_line@,
                manifest.riichi_style@,
                reason,
            ),
            Ok(v) => match contents {
                Err(e) => r is Err && r->Err_0@ == undigested(dir@, package@, *model, v, e@),
                Ok(held) => match model_digest(*manifest, *model, v.kind, files_view(held@)) {
                    Err(e) => r is Err && r->Err_0@ == undigested(dir@, package@, *model, v, e),
                    Ok(hash) => r is Ok && is_model_trial(r->Ok_0, dir@, package@, v, hash),
                },
            },
        },
{
    let validated = match validate_package_model(dir, package, model, files) {
        Ok(v) => v,
        Err(reason) => {
            return Err(
                failed_model(
                    dir,
                    package.package_id.as_str(),
                    model.id.as_str(),
                    model.rule_line.as_str(),
                    manifest.riichi_style.as_str(),
                    reason,
                ),
            );
        },
    };
    let digested = match contents {
        Ok(held) => {
            proof { valid_models_name_files(dir@, package@, *model, strings_view(files@), files_view(held@)); }
            package_model_hash(manifest, model, &validated.kind, held)
        },
        Err(e) => Err(e),
    };
    let hash = match digested {
        Ok(h) => h,
        Err(e) => {
            return Err(
                failed_model(
                    dir,
                    package.package_id.as_str(),
                    model.id.as_str(),
                    validated.rule_line.wire_value(),
                    style_str(validated.riichi_style),
                    join2("failed to hash package model: ", e.as_str()),
                ),
            );
        },
    };
    let candidate = Candidate {
        dir: owned(dir),
        layout: owned("package"),
        package_id: Some(package.package_id.clone()),
        slug: validated.slug.clone(),
        protocol: package.protocol.clone(),
        rule_line: validated.rule_line,
        riichi_style: validated.riichi_style,
        package_hash: hash,
        cert_path: package_cert_path(dir, validated.rule_line, validated.slug.as_str()),
    };
    Ok(
        Trial {
            candidate,
            engine: ValidatedManifest {
                name: validated.slug.clone(),
                protocol: package.protocol.clone(),
                rule_line: validated.rule_line,
                riichi_style: validated.riichi_style,
            },
            launch_cmd: package.translator.launch_cmd.clone(),
            launch_args: validated.launch_args,
        },
    )
}

// The trial itself.

/// How long an engine that is tried may take to answer, in milliseconds.
pub const TRIAL_TIMEOUT: u64 = 15000;

/// What an engine that is tried is told of the match.
pub open spec fn trial_context() -> JsonView {
    JsonView::object().with("length"@, JsonView::Text("east"@)).with("certification"@, JsonView::Bool(true))
}

/// How an engine that is tried is started. `run` tells one run of the program from another.
pub fn trial_config(t: &Trial, run: u64) -> (r: EngineProcessConfig)
    ensures
        r.executable@ == t.launch_cmd@,
        strings_view(r.args@) == strings_view(t.launch_args@),
        r.env@.len() == 0,
        string_view(r.cwd) == Some(t.candidate.dir@),
        r.timeout == TRIAL_TIMEOUT,
        r.session_id@ == "cert-"@ + t.engine.name@ + "-"@ + dec(run as nat),
        r.seat == 0,
        r.rule_line == t.engine.rule_line,
        r.match_context@ == trial_context(),
        strings_view(r.protocol_versions@) == seq![t.engine.protocol@],
{
    let mut session = join3("cert-", t.engine.name.as_str(), "-");
    session.append(dec_u64(run).as_str());
    let mut config = EngineProcessConfig::new(t.launch_cmd.as_str(), 0, t.engine.rule_line, session.as_str());
    config.args = copy_strings(&t.launch_args);
    config.cwd = Some(t.candidate.dir.clone());
    config.timeout = TRIAL_TIMEOUT;
    config.match_context = Json::object().with("length", Json::text("east")).with("certification", Json::Bool(true));
    config.protocol_versions = vec![t.engine.protocol.clone()];
    assert(strings_view(config.protocol_versions@) =~= seq![t.engine.protocol@]);
    config
}

/// Whether an engine that is tried may pass on the dealer's opening.
pub fn may_abstain(t: &Trial) -> (r: bool)
    ensures
        r == (t.engine.protocol@ == FLYA_INFERENCE_PROTOCOL_V1@),
{
    same(t.engine.protocol.as_str(), FLYA_INFERENCE_PROTOCOL_V1)
}

} // verus!
