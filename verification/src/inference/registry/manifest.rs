//! Manifests of plugins and packages, and the rules that they have to meet. The files of a
//! package are given as a list of their paths.

use vstd::prelude::*;
use vstd::string::*;
use crate::inference::contract::{
    strings_view, RiichiStyle, RuleLine, FLYA_INFERENCE_PROTOCOL_V1, FLYA_INFERENCE_PROTOCOL_V2,
};
use crate::inference::parse::starts_with;
use crate::inference::registry::names::{
    below, engine_path_fault, file_name, holds, holds_text, join_parts, join_path, last_part, launch_path,
    manifest_path, model_path_fault, parts_result, replace_text, replaced, resolve_launch_cmd, slashed,
    validate_engine_path_prefix, validate_model_path_prefix, validate_relative_manifest_path,
    PACKAGE_MANIFEST_FILE_NAME,
};
use crate::inference::request::is_protocol;
use crate::inference::session::{
    contains_text, parse_riichi_style, parse_rule_line, riichi_style_of, rule_line_of,
};
use crate::mahjong::tile::{quote, quoted};
use crate::text::{chars_of, dec, dec_u64, join2, join3, owned, same, trim, trimmed};

verus! {

// What manifests hold.

/// What an engine is said to be able to do.
#[derive(Debug, Clone, Copy, PartialEq, Eq, Structural)]
pub struct ManifestCaps {
    pub supports_incremental: bool,
    pub returns_ranked_actions: bool,
}

/// How a plugin is started.
#[derive(Debug)]
pub struct LaunchManifest {
    pub cmd: String,
    pub args: Vec<String>,
}

/// A plugin: one engine for one game.
#[derive(Debug)]
pub struct PluginManifest {
    pub schema: u32,
    pub name: String,
    pub protocol: String,
    pub rule_line: String,
    pub riichi_style: String,
    pub launch: LaunchManifest,
    pub caps: Option<ManifestCaps>,
}

/// How a package is started.
#[derive(Debug)]
pub struct PackageTranslatorManifest {
    pub exe: Option<String>,
    pub py: Option<String>,
    pub python: Option<String>,
    pub args: Vec<String>,
}

/// The engine of a model.
#[derive(Debug)]
pub struct PackageEngineManifest {
    pub kind: String,
    pub location: String,
    pub protocol: String,
    pub args: Vec<String>,
}

/// A model of a package.
#[derive(Debug)]
pub struct PackageModelManifest {
    pub id: String,
    pub display_name: String,
    pub rule_line: String,
    pub kind: String,
    pub path: Option<String>,
    pub remote_backend: Option<String>,
    pub weight_file: Option<String>,
    pub remote_model: Option<String>,
    pub engine: Option<PackageEngineManifest>,
    pub caps: Option<ManifestCaps>,
    pub args: Vec<String>,
}

/// A package: a translator and its models.
#[derive(Debug)]
pub struct PackageManifest {
    pub schema: u32,
    pub package_id: String,
    pub display_name: String,
    pub protocol: String,
    pub riichi_style: String,
    pub translator: PackageTranslatorManifest,
    pub caps: Option<ManifestCaps>,
    pub models: Vec<PackageModelManifest>,
}

// Plugins.

/// A plugin that meets the rules.
#[derive(Debug)]
pub struct ValidatedManifest {
    pub name: String,
    pub protocol: String,
    pub rule_line: RuleLine,
    pub riichi_style: RiichiStyle,
}

/// A plugin that meets the rules, as facts.
pub ghost struct PluginFacts {
    pub name: Seq<char>,
    pub protocol: Seq<char>,
    pub rule_line: RuleLine,
    pub riichi_style: RiichiStyle,
}

impl View for ValidatedManifest {
    type V = PluginFacts;

    open spec fn view(&self) -> PluginFacts {
        PluginFacts {
            name: self.name@,
            protocol: self.protocol@,
            rule_line: self.rule_line,
            riichi_style: self.riichi_style,
        }
    }
}

/// A blank text.
pub open spec fn is_blank(s: Seq<char>) -> bool {
    trimmed(s).len() == 0
}

fn blank(s: &str) -> (r: bool)
    ensures
        r == is_blank(s@),
{
    trim(s).as_str().is_empty()
}

/// The game of a name.
pub open spec fn line_named(s: Seq<char>) -> Result<RuleLine, Seq<char>> {
    match rule_line_of(s) {
        Ok(l) => Ok(l),
        Err(e) => Err(e.detail),
    }
}

/// The riichi style of a name.
pub open spec fn style_named(s: Seq<char>) -> Result<RiichiStyle, Seq<char>> {
    match riichi_style_of(s) {
        Ok(l) => Ok(l),
        Err(e) => Err(e.detail),
    }
}

pub fn rule_line_from(s: &str) -> (r: Result<RuleLine, String>)
    ensures
        match r {
            Ok(l) => line_named(s@) == Ok::<RuleLine, Seq<char>>(l),
            Err(e) => line_named(s@) == Err::<RuleLine, Seq<char>>(e@),
        },
{
    match parse_rule_line(s) {
        Ok(l) => Ok(l),
        Err(e) => Err(e.detail),
    }
}

fn riichi_style_from(s: &str) -> (r: Result<RiichiStyle, String>)
    ensures
        match r {
            Ok(l) => style_named(s@) == Ok::<RiichiStyle, Seq<char>>(l),
            Err(e) => style_named(s@) == Err::<RiichiStyle, Seq<char>>(e@),
        },
{
    match parse_riichi_style(s) {
        Ok(l) => Ok(l),
        Err(e) => Err(e.detail),
    }
}

pub fn is_supported_inference_protocol(protocol: &str) -> (r: bool)
    ensures
        r == is_protocol(protocol@),
{
    same(protocol, FLYA_INFERENCE_PROTOCOL_V1) || same(protocol, FLYA_INFERENCE_PROTOCOL_V2)
}

/// A plugin for a game, or the first rule that it breaks.
pub open spec fn valid_plugin(m: PluginManifest, expected: RuleLine) -> Result<PluginFacts, Seq<char>> {
    if m.schema != 1 {
        Err("unsupported schema "@ + dec(m.schema as nat))
    } else if is_blank(m.name@) {
        Err("name is required"@)
    } else if !is_protocol(m.protocol@) {
        Err("unsupported protocol "@ + m.protocol@)
    } else {
        match line_named(m.rule_line@) {
            Err(e) => Err(e),
            Ok(rule_line) => if rule_line != expected {
                Err(
                    "rule_line "@ + m.rule_line@ + " does not match parent directory "@ + expected.spec_wire_value(),
                )
            } else {
                match style_named(m.riichi_style@) {
                    Err(e) => Err(e),
                    Ok(riichi_style) => if is_blank(m.launch.cmd@) {
                        Err("launch.cmd is required"@)
                    } else {
                        Ok(PluginFacts { name: m.name@, protocol: m.protocol@, rule_line, riichi_style })
                    },
                }
            },
        }
    }
}

/// Checks a plugin's manifest.
pub fn validate_manifest(manifest: &PluginManifest, expected: RuleLine) -> (r: Result<ValidatedManifest, String>)
    ensures
        match r {
            Ok(v) => valid_plugin(*manifest, expected) == Ok::<PluginFacts, Seq<char>>(v@),
            Err(e) => valid_plugin(*manifest, expected) == Err::<PluginFacts, Seq<char>>(e@),
        },
{
    if manifest.schema != 1 {
        return Err(join2("unsupported schema ", dec_u64(manifest.schema as u64).as_str()));
    }
    if blank(manifest.name.as_str()) {
        return Err(owned("name is required"));
    }
    if !is_supported_inference_protocol(manifest.protocol.as_str()) {
        return Err(join2("unsupported protocol ", manifest.protocol.as_str()));
    }
    let rule_line = match rule_line_from(manifest.rule_line.as_str()) {
        Ok(l) => l,
        Err(e) => {
            return Err(e);
        },
    };
    if rule_line != expected {
        let mut e = join3("rule_line ", manifest.rule_line.as_str(), " does not match parent directory ");
        e.append(expected.wire_value());
        return Err(e);
    }
    let riichi_style = match riichi_style_from(manifest.riichi_style.as_str()) {
        Ok(l) => l,
        Err(e) => {
            return Err(e);
        },
    };
    if blank(manifest.launch.cmd.as_str()) {
        return Err(owned("launch.cmd is required"));
    }
    Ok(
        ValidatedManifest {
            name: manifest.name.clone(),
            protocol: manifest.protocol.clone(),
            rule_line,
            riichi_style,
        },
    )
}

// Packages.

/// How a package is started, as its files allow.
#[derive(Debug)]
pub struct PackageTranslator {
    pub launch_cmd: String,
    pub launch_prefix_args: Vec<String>,
}

pub ghost struct TranslatorFacts {
    pub launch_cmd: Seq<char>,
    pub launch_prefix_args: Seq<Seq<char>>,
}

impl View for PackageTranslator {
    type V = TranslatorFacts;

    open spec fn view(&self) -> TranslatorFacts {
        TranslatorFacts { launch_cmd: self.launch_cmd@, launch_prefix_args: strings_view(self.launch_prefix_args@) }
    }
}

/// A package that meets the rules.
#[derive(Debug)]
pub struct ValidatedPackage {
    pub schema: u32,
    pub package_id: String,
    pub protocol: String,
    pub riichi_style: RiichiStyle,
    pub translator: PackageTranslator,
}

pub ghost struct PackageFacts {
    pub schema: u32,
    pub package_id: Seq<char>,
    pub protocol: Seq<char>,
    pub riichi_style: RiichiStyle,
    pub translator: TranslatorFacts,
}

impl View for ValidatedPackage {
    type V = PackageFacts;

    open spec fn view(&self) -> PackageFacts {
        PackageFacts {
            schema: self.schema,
            package_id: self.package_id@,
            protocol: self.protocol@,
            riichi_style: self.riichi_style,
            translator: self.translator@,
        }
    }
}

/// A text, or another where it is not given.
pub open spec fn given_or(s: Option<String>, otherwise: Seq<char>) -> Seq<char> {
    match s {
        Some(t) => t@,
        None => otherwise,
    }
}

fn or_else<'a>(s: &'a Option<String>, otherwise: &'a str) -> (r: &'a str)
    ensures
        r@ == given_or(*s, otherwise@),
{
    match s {
        Some(t) => t.as_str(),
        None => otherwise,
    }
}

/// How a package is started: by its executable if it is there, or else by its script.
pub open spec fn translator_of(dir: Seq<char>, m: PackageTranslatorManifest, files: Seq<Seq<char>>) -> Result<
    TranslatorFacts,
    Seq<char>,
> {
    let exe = given_or(m.exe, "translator.exe"@);
    let py = given_or(m.py, "translator.py"@);
    match manifest_path("translator.exe"@, exe) {
        Err(e) => Err(e),
        Ok(p) => if files.contains(slashed(p)) {
            Ok(TranslatorFacts { launch_cmd: below(dir, slashed(p)), launch_prefix_args: strings_view(m.args@) })
        } else {
            match manifest_path("translator.py"@, py) {
                Err(e) => Err(e),
                Ok(q) => if files.contains(slashed(q)) {
                    Ok(
                        TranslatorFacts {
                            launch_cmd: launch_path(dir, given_or(m.python, "python"@)),
                            launch_prefix_args: seq![slashed(q)] + strings_view(m.args@),
                        },
                    )
                } else {
                    Err("package must contain translator executable "@ + exe + " or Python translator "@ + py)
                },
            }
        },
    }
}

/// Appends copies of strings.
fn extend_strings(out: &mut Vec<String>, v: &Vec<String>)
    ensures
        strings_view(final(out)@) == strings_view(old(out)@) + strings_view(v@),
{
    let ghost before = strings_view(out@);
    let mut i: usize = 0;
    assert(strings_view(out@) =~= before + strings_view(v@).take(0));
    while i < v.len()
        invariant
            i <= v@.len(),
            strings_view(out@) == before + strings_view(v@).take(i as int),
        decreases v@.len() - i,
    {
        let ghost now = out@;
        let s = v[i].clone();
        out.push(s);
        assert(strings_view(out@) =~= strings_view(now).push(s@));
        i = i + 1;
        assert(strings_view(out@) =~= before + strings_view(v@).take(i as int));
    }
    assert(strings_view(v@).take(i as int) =~= strings_view(v@));
}

pub(crate) fn copy_strings(v: &Vec<String>) -> (r: Vec<String>)
    ensures
        strings_view(r@) == strings_view(v@),
{
    let mut out: Vec<String> = Vec::new();
    extend_strings(&mut out, v);
    assert(strings_view(out@) =~= strings_view(v@));
    out
}

/// How a package is started.
pub fn validate_package_translator(dir: &str, manifest: &PackageTranslatorManifest, files: &Vec<String>) -> (r: Result<
    PackageTranslator,
    String,
>)
    ensures
        match r {
            Ok(t) => translator_of(dir@, *manifest, strings_view(files@)) == Ok::<TranslatorFacts, Seq<char>>(t@),
            Err(e) => translator_of(dir@, *manifest, strings_view(files@)) == Err::<TranslatorFacts, Seq<char>>(e@),
        },
{
    let exe = or_else(&manifest.exe, "translator.exe");
    let py = or_else(&manifest.py, "translator.py");
    let exe_path = match validate_relative_manifest_path("translator.exe", exe) {
        Ok(p) => join_parts(&p),
        Err(e) => {
            return Err(e);
        },
    };
    if contains_text(files, exe_path.as_str()) {
        return Ok(
            PackageTranslator {
                launch_cmd: join_path(dir, exe_path.as_str()),
                launch_prefix_args: copy_strings(&manifest.args),
            },
        );
    }
    let py_path = match validate_relative_manifest_path("translator.py", py) {
        Ok(p) => join_parts(&p),
        Err(e) => {
            return Err(e);
        },
    };
    if contains_text(files, py_path.as_str()) {
        let launch_cmd = resolve_launch_cmd(dir, or_else(&manifest.python, "python"));
        let mut launch_prefix_args: Vec<String> = Vec::new();
        launch_prefix_args.push(py_path);
        assert(strings_view(launch_prefix_args@) =~= seq![py_path@]);
        extend_strings(&mut launch_prefix_args, &manifest.args);
        return Ok(PackageTranslator { launch_cmd, launch_prefix_args });
    }
    let mut e = join3("package must contain translator executable ", exe, " or Python translator ");
    e.append(py);
    Err(e)
}

/// A package, or the first rule that it breaks.
pub open spec fn valid_package(dir: Seq<char>, m: PackageManifest, files: Seq<Seq<char>>) -> Result<PackageFacts, Seq<char>> {
    if m.schema != 2 && m.schema != 3 {
        Err("unsupported schema "@ + dec(m.schema as nat))
    } else if is_blank(m.package_id@) {
        Err("package_id is required"@)
    } else if is_blank(m.display_name@) {
        Err("display_name is required"@)
    } else if file_name(dir) is Some && file_name(dir)->0 != m.package_id@ {
        Err("package_id "@ + m.package_id@ + " does not match package directory "@ + file_name(dir)->0)
    } else if !is_protocol(m.protocol@) {
        Err("unsupported protocol "@ + m.protocol@)
    } else if m.schema == 3 && m.caps is None {
        Err("schema 3 package caps are required"@)
    } else {
        match style_named(m.riichi_style@) {
            Err(e) => Err(e),
            Ok(riichi_style) => match translator_of(dir, m.translator, files) {
                Err(e) => Err(e),
                Ok(translator) => Ok(
                    PackageFacts {
                        schema: m.schema,
                        package_id: m.package_id@,
                        protocol: m.protocol@,
                        riichi_style,
                        translator,
                    },
                ),
            },
        }
    }
}

/// Checks a package's manifest.
pub fn validate_package_manifest(dir: &str, manifest: &PackageManifest, files: &Vec<String>) -> (r: Result<
    ValidatedPackage,
    String,
>)
    ensures
        match r {
            Ok(v) => valid_package(dir@, *manifest, strings_view(files@)) == Ok::<PackageFacts, Seq<char>>(v@),
            Err(e) => valid_package(dir@, *manifest, strings_view(files@)) == Err::<PackageFacts, Seq<char>>(e@),
        },
{
    if manifest.schema != 2 && manifest.schema != 3 {
        return Err(join2("unsupported schema ", dec_u64(manifest.schema as u64).as_str()));
    }
    if blank(manifest.package_id.as_str()) {
        return Err(owned("package_id is required"));
    }
    if blank(manifest.display_name.as_str()) {
        return Err(owned("display_name is required"));
    }
    match last_part(dir) {
        Some(name) => {
            if !same(name.as_str(), manifest.package_id.as_str()) {
                let mut e = join3("package_id ", manifest.package_id.as_str(), " does not match package directory ");
                e.append(name.as_str());
                return Err(e);
            }
        },
        None => {},
    }
    if !is_supported_inference_protocol(manifest.protocol.as_str()) {
        return Err(join2("unsupported protocol ", manifest.protocol.as_str()));
    }
    if manifest.schema == 3 && manifest.caps.is_none() {
        return Err(owned("schema 3 package caps are required"));
    }
    let riichi_style = match riichi_style_from(manifest.riichi_style.as_str()) {
        Ok(l) => l,
        Err(e) => {
            return Err(e);
        },
    };
    match validate_package_translator(dir, &manifest.translator, files) {
        Err(e) => Err(e),
        Ok(translator) => Ok(
            ValidatedPackage {
                schema: manifest.schema,
                package_id: manifest.package_id.clone(),
                protocol: manifest.protocol.clone(),
                riichi_style,
                translator,
            },
        ),
    }
}

// Models.

#[derive(Debug, Clone, Copy, PartialEq, Eq, Structural)]
pub enum PackageEngineKind {
    Local,
    Remote,
}

/// An engine that meets the rules.
#[derive(Debug)]
pub struct ValidatedPackageEngine {
    pub kind: PackageEngineKind,
    pub location: String,
    pub protocol: String,
    pub args: Vec<String>,
}

pub ghost struct EngineFacts {
    pub kind: PackageEngineKind,
    pub location: Seq<char>,
    pub protocol: Seq<char>,
    pub args: Seq<Seq<char>>,
}

impl View for ValidatedPackageEngine {
    type V = EngineFacts;

    open spec fn view(&self) -> EngineFacts {
        EngineFacts {
            kind: self.kind,
            location: self.location@,
            protocol: self.protocol@,
            args: strings_view(self.args@),
        }
    }
}

/// Where a model runs, and on what.
#[derive(Debug)]
#[allow(inconsistent_fields)]
pub enum PackageModelKind {
    Onnx { path: String },
    Remote { backend: String },
    RuntimeLocal { weight_file: String, engine: ValidatedPackageEngine },
    RuntimeRemote { remote_model: String, engine: ValidatedPackageEngine },
}

#[allow(inconsistent_fields)]
pub ghost enum KindFacts {
    Onnx { path: Seq<char> },
    Remote { backend: Seq<char> },
    RuntimeLocal { weight_file: Seq<char>, engine: EngineFacts },
    RuntimeRemote { remote_model: Seq<char>, engine: EngineFacts },
}

impl View for PackageModelKind {
    type V = KindFacts;

    open spec fn view(&self) -> KindFacts {
        match *self {
            PackageModelKind::Onnx { path } => KindFacts::Onnx { path: path@ },
            PackageModelKind::Remote { backend } => KindFacts::Remote { backend: backend@ },
            PackageModelKind::RuntimeLocal { weight_file, engine } => KindFacts::RuntimeLocal {
                weight_file: weight_file@,
                engine: engine@,
            },
            PackageModelKind::RuntimeRemote { remote_model, engine } => KindFacts::RuntimeRemote {
                remote_model: remote_model@,
                engine: engine@,
            },
        }
    }
}

/// A model that meets the rules.
#[derive(Debug)]
pub struct ValidatedPackageModel {
    pub slug: String,
    pub rule_line: RuleLine,
    pub riichi_style: RiichiStyle,
    pub kind: PackageModelKind,
    pub launch_args: Vec<String>,
}

pub ghost struct ModelFacts {
    pub slug: Seq<char>,
    pub rule_line: RuleLine,
    pub riichi_style: RiichiStyle,
    pub kind: KindFacts,
    pub launch_args: Seq<Seq<char>>,
}

impl View for ValidatedPackageModel {
    type V = ModelFacts;

    open spec fn view(&self) -> ModelFacts {
        ModelFacts {
            slug: self.slug@,
            rule_line: self.rule_line,
            riichi_style: self.riichi_style,
            kind: self.kind@,
            launch_args: strings_view(self.launch_args@),
        }
    }
}

/// A path of the package that has to be there, under the right directory.
pub open spec fn model_file(label: Seq<char>, missing: Seq<char>, value: Seq<char>, rule_line: RuleLine, files: Seq<Seq<char>>) -> Result<
    Seq<char>,
    Seq<char>,
> {
    match manifest_path(label, value) {
        Err(e) => Err(e),
        Ok(p) => match model_path_fault(p, rule_line) {
            Some(e) => Err(e),
            None => if files.contains(slashed(p)) {
                Ok(slashed(p))
            } else {
                Err(missing + slashed(p) + " does not exist"@)
            },
        },
    }
}

/// A text or a reason, as facts.
pub open spec fn text_result(r: Result<String, String>) -> Result<Seq<char>, Seq<char>> {
    match r {
        Ok(s) => Ok(s@),
        Err(e) => Err(e@),
    }
}

fn check_model_file(label: &str, missing: &str, value: &str, rule_line: RuleLine, files: &Vec<String>) -> (r: Result<
    String,
    String,
>)
    ensures
        text_result(r) == model_file(label@, missing@, value@, rule_line, strings_view(files@)),
{
    let p = match validate_relative_manifest_path(label, value) {
        Ok(p) => p,
        Err(e) => {
            return Err(e);
        },
    };
    match validate_model_path_prefix(&p, rule_line) {
        Err(e) => {
            return Err(e);
        },
        Ok(_) => {},
    }
    let path = join_parts(&p);
    if contains_text(files, path.as_str()) {
        Ok(path)
    } else {
        Err(join3(missing, path.as_str(), " does not exist"))
    }
}

/// Where a model of the second schema runs.
pub open spec fn plain_kind(m: PackageModelManifest, rule_line: RuleLine, files: Seq<Seq<char>>) -> Result<KindFacts, Seq<char>> {
    if m.kind@ == "onnx"@ {
        match m.path {
            None => Err("path is required for onnx model "@ + m.id@),
            Some(path) => match model_file("models.path"@, "model path "@, path@, rule_line, files) {
                Err(e) => Err(e),
                Ok(p) => Ok(KindFacts::Onnx { path: p }),
            },
        }
    } else if m.kind@ == "remote"@ {
        if m.path is Some {
            Err("remote model "@ + m.id@ + " must not set path"@)
        } else if is_blank(given_or(m.remote_backend, Seq::empty())) {
            Err("remote_backend is required for remote model "@ + m.id@)
        } else {
            Ok(KindFacts::Remote { backend: given_or(m.remote_backend, Seq::empty()) })
        }
    } else {
        Err("unsupported model kind "@ + quoted(m.kind@) + " for "@ + m.id@)
    }
}

/// The engine of a model, or the first rule that it breaks.
pub open spec fn engine_of(m: PackageModelManifest, files: Seq<Seq<char>>) -> Result<EngineFacts, Seq<char>> {
    match m.engine {
        None => Err("[[models]] "@ + m.id@ + " requires [models.engine]"@),
        Some(e) => if is_blank(e.protocol@) {
            Err("engine.protocol is required for model "@ + m.id@)
        } else if is_blank(e.location@) {
            Err("engine.location is required for model "@ + m.id@)
        } else if e.kind@ == "local"@ {
            match manifest_path("models.engine.location"@, e.location@) {
                Err(t) => Err(t),
                Ok(p) => match engine_path_fault(p) {
                    Some(t) => Err(t),
                    None => if files.contains(slashed(p)) {
                        Ok(
                            EngineFacts {
                                kind: PackageEngineKind::Local,
                                location: e.location@,
                                protocol: e.protocol@,
                                args: strings_view(e.args@),
                            },
                        )
                    } else {
                        Err("engine.location "@ + slashed(p) + " does not exist"@)
                    },
                },
            }
        } else if e.kind@ == "remote"@ {
            if starts_with(e.location@, "http://"@) || starts_with(e.location@, "https://"@) {
                Ok(
                    EngineFacts {
                        kind: PackageEngineKind::Remote,
                        location: e.location@,
                        protocol: e.protocol@,
                        args: strings_view(e.args@),
                    },
                )
            } else {
                Err("remote engine.location for model "@ + m.id@ + " must be an http(s) URL"@)
            }
        } else {
            Err(
                "engine.kind for model "@ + m.id@ + " must be \"local\" or \"remote\", got "@ + quoted(e.kind@),
            )
        },
    }
}

/// Where a model of the third schema runs.
pub open spec fn runtime_kind(m: PackageModelManifest, rule_line: RuleLine, files: Seq<Seq<char>>) -> Result<KindFacts, Seq<char>> {
    if m.caps is None {
        Err("schema 3 model "@ + m.id@ + " caps are required"@)
    } else if m.path is Some || m.remote_backend is Some {
        Err("schema 3 model "@ + m.id@ + " must use weight_file/remote_model and engine, not path/remote_backend"@)
    } else {
        match engine_of(m, files) {
            Err(e) => Err(e),
            Ok(engine) => if m.kind@ == "local"@ {
                if engine.kind != PackageEngineKind::Local {
                    Err("local model "@ + m.id@ + " requires [models.engine].kind = \"local\""@)
                } else {
                    match m.weight_file {
                        None => Err("weight_file is required for local model "@ + m.id@),
                        Some(w) => match model_file("models.weight_file"@, "weight_file "@, w@, rule_line, files) {
                            Err(e) => Err(e),
                            Ok(weight_file) => if !is_blank(given_or(m.remote_model, Seq::empty())) {
                                Err("local model "@ + m.id@ + " must not set remote_model"@)
                            } else {
                                Ok(KindFacts::RuntimeLocal { weight_file, engine })
                            },
                        },
                    }
                }
            } else if m.kind@ == "remote"@ {
                if engine.kind != PackageEngineKind::Remote {
                    Err("remote model "@ + m.id@ + " requires [models.engine].kind = \"remote\""@)
                } else if !is_blank(given_or(m.weight_file, Seq::empty())) {
                    Err("remote model "@ + m.id@ + " must not set local weight_file"@)
                } else if is_blank(given_or(m.remote_model, Seq::empty())) {
                    Err("remote_model is required for remote model "@ + m.id@)
                } else {
                    Ok(KindFacts::RuntimeRemote { remote_model: given_or(m.remote_model, Seq::empty()), engine })
                }
            } else {
                Err(
                    "schema 3 model "@ + m.id@ + " kind must be \"local\" or \"remote\", got "@ + quoted(m.kind@),
                )
            },
        }
    }
}

fn check_plain_kind(m: &PackageModelManifest, rule_line: RuleLine, files: &Vec<String>) -> (r: Result<PackageModelKind, String>)
    ensures
        match r {
            Ok(k) => plain_kind(*m, rule_line, strings_view(files@)) == Ok::<KindFacts, Seq<char>>(k@),
            Err(e) => plain_kind(*m, rule_line, strings_view(files@)) == Err::<KindFacts, Seq<char>>(e@),
        },
{
    if same(m.kind.as_str(), "onnx") {
        match &m.path {
            None => Err(join2("path is required for onnx model ", m.id.as_str())),
            Some(path) => match check_model_file("models.path", "model path ", path.as_str(), rule_line, files) {
                Err(e) => Err(e),
                Ok(p) => Ok(PackageModelKind::Onnx { path: p }),
            },
        }
    } else if same(m.kind.as_str(), "remote") {
        if m.path.is_some() {
            return Err(join3("remote model ", m.id.as_str(), " must not set path"));
        }
        proof {
            reveal_strlit("");
            assert(""@ =~= Seq::empty());
        }
        let backend = or_else(&m.remote_backend, "");
        if blank(backend) {
            return Err(join2("remote_backend is required for remote model ", m.id.as_str()));
        }
        Ok(PackageModelKind::Remote { backend: owned(backend) })
    } else {
        let mut e = join3("unsupported model kind ", quote(m.kind.as_str()).as_str(), " for ");
        e.append(m.id.as_str());
        Err(e)
    }
}

fn begins(s: &str, head: &str) -> (r: bool)
    ensures
        r == starts_with(s@, head@),
{
    let a = chars_of(s);
    let b = chars_of(head);
    if b.len() > a.len() {
        return false;
    }
    let mut i: usize = 0;
    while i < b.len()
        invariant
            i <= b@.len() <= a@.len(),
            a@ == s@,
            b@ == head@,
            forall|j: int| 0 <= j < i ==> a@[j] == b@[j],
        decreases b@.len() - i,
    {
        if a[i] != b[i] {
            assert(a@.take(b@.len() as int)[i as int] != b@[i as int]);
            return false;
        }
        i = i + 1;
    }
    assert(a@.take(b@.len() as int) =~= b@);
    true
}

/// Checks the engine of a model.
pub fn validate_runtime_engine(m: &PackageModelManifest, files: &Vec<String>) -> (r: Result<ValidatedPackageEngine, String>)
    ensures
        match r {
            Ok(v) => engine_of(*m, strings_view(files@)) == Ok::<EngineFacts, Seq<char>>(v@),
            Err(e) => engine_of(*m, strings_view(files@)) == Err::<EngineFacts, Seq<char>>(e@),
        },
{
    let e = match &m.engine {
        None => {
            return Err(join3("[[models]] ", m.id.as_str(), " requires [models.engine]"));
        },
        Some(e) => e,
    };
    if blank(e.protocol.as_str()) {
        return Err(join2("engine.protocol is required for model ", m.id.as_str()));
    }
    if blank(e.location.as_str()) {
        return Err(join2("engine.location is required for model ", m.id.as_str()));
    }
    let kind = if same(e.kind.as_str(), "local") {
        let p = match validate_relative_manifest_path("models.engine.location", e.location.as_str()) {
            Ok(p) => p,
            Err(t) => {
                return Err(t);
            },
        };
        match validate_engine_path_prefix(&p) {
            Err(t) => {
                return Err(t);
            },
            Ok(_) => {},
        }
        let path = join_parts(&p);
        if !contains_text(files, path.as_str()) {
            return Err(join3("engine.location ", path.as_str(), " does not exist"));
        }
        PackageEngineKind::Local
    } else if same(e.kind.as_str(), "remote") {
        if !(begins(e.location.as_str(), "http://") || begins(e.location.as_str(), "https://")) {
            return Err(join3("remote engine.location for model ", m.id.as_str(), " must be an http(s) URL"));
        }
        PackageEngineKind::Remote
    } else {
        let mut t = join3("engine.kind for model ", m.id.as_str(), " must be \"local\" or \"remote\", got ");
        t.append(quote(e.kind.as_str()).as_str());
        return Err(t);
    };
    Ok(
        ValidatedPackageEngine {
            kind,
            location: e.location.clone(),
            protocol: e.protocol.clone(),
            args: copy_strings(&e.args),
        },
    )
}

fn check_runtime_kind(m: &PackageModelManifest, rule_line: RuleLine, files: &Vec<String>) -> (r: Result<
    PackageModelKind,
    String,
>)
    ensures
        match r {
            Ok(k) => runtime_kind(*m, rule_line, strings_view(files@)) == Ok::<KindFacts, Seq<char>>(k@),
            Err(e) => runtime_kind(*m, rule_line, strings_view(files@)) == Err::<KindFacts, Seq<char>>(e@),
        },
{
    proof {
        reveal_strlit("");
        assert(""@ =~= Seq::empty());
    }
    if m.caps.is_none() {
        return Err(join3("schema 3 model ", m.id.as_str(), " caps are required"));
    }
    if m.path.is_some() || m.remote_backend.is_some() {
        return Err(
            join3(
                "schema 3 model ",
                m.id.as_str(),
                " must use weight_file/remote_model and engine, not path/remote_backend",
            ),
        );
    }
    let engine = match validate_runtime_engine(m, files) {
        Ok(e) => e,
        Err(e) => {
            return Err(e);
        },
    };
    if same(m.kind.as_str(), "local") {
        if engine.kind != PackageEngineKind::Local {
            return Err(join3("local model ", m.id.as_str(), " requires [models.engine].kind = \"local\""));
        }
        let w = match &m.weight_file {
            None => {
                return Err(join2("weight_file is required for local model ", m.id.as_str()));
            },
            Some(w) => w,
        };
        let weight_file = match check_model_file("models.weight_file", "weight_file ", w.as_str(), rule_line, files) {
            Ok(p) => p,
            Err(e) => {
                return Err(e);
            },
        };
        if !blank(or_else(&m.remote_model, "")) {
            return Err(join3("local model ", m.id.as_str(), " must not set remote_model"));
        }
        Ok(PackageModelKind::RuntimeLocal { weight_file, engine })
    } else if same(m.kind.as_str(), "remote") {
        if engine.kind != PackageEngineKind::Remote {
            return Err(join3("remote model ", m.id.as_str(), " requires [models.engine].kind = \"remote\""));
        }
        if !blank(or_else(&m.weight_file, "")) {
            return Err(join3("remote model ", m.id.as_str(), " must not set local weight_file"));
        }
        let remote_model = or_else(&m.remote_model, "");
        if blank(remote_model) {
            return Err(join2("remote_model is required for remote model ", m.id.as_str()));
        }
        Ok(PackageModelKind::RuntimeRemote { remote_model: owned(remote_model), engine })
    } else {
        let mut t = join3("schema 3 model ", m.id.as_str(), " kind must be \"local\" or \"remote\", got ");
        t.append(quote(m.kind.as_str()).as_str());
        Err(t)
    }
}

// Arguments.

/// An argument of a model of the second schema, with its placeholders filled in.
pub open spec fn plain_arg(arg: Seq<char>, kind: KindFacts, rule_line: RuleLine) -> Result<Seq<char>, Seq<char>> {
    let path = match kind {
        KindFacts::Onnx { path } => Some(path),
        _ => None,
    };
    if holds(arg, "{model_path}"@) && path is None {
        Err("{model_path} cannot be used by remote models"@)
    } else {
        Ok(
            replaced(
                replaced(
                    arg,
                    "{model_path}"@,
                    match path {
                        Some(p) => p,
                        None => Seq::empty(),
                    },
                ),
                "{rule_line}"@,
                rule_line.spec_wire_value(),
            ),
        )
    }
}

/// An argument of a model of the third schema, with its placeholders filled in.
pub open spec fn runtime_arg(arg: Seq<char>, dir: Seq<char>, m: PackageModelManifest, kind: KindFacts, rule_line: RuleLine) -> Result<
    Seq<char>,
    Seq<char>,
> {
    match kind {
        KindFacts::RuntimeLocal { weight_file, engine } => filled_arg(
            arg,
            dir,
            m,
            rule_line,
            engine,
            "local"@,
            weight_file,
            Seq::empty(),
        ),
        KindFacts::RuntimeRemote { remote_model, engine } => filled_arg(
            arg,
            dir,
            m,
            rule_line,
            engine,
            "remote"@,
            Seq::empty(),
            remote_model,
        ),
        _ => Err("runtime placeholder expansion requires a schema 3 model"@),
    }
}

/// The placeholders of an argument, filled in one after the other.
pub open spec fn filled_arg(
    arg: Seq<char>,
    dir: Seq<char>,
    m: PackageModelManifest,
    rule_line: RuleLine,
    engine: EngineFacts,
    engine_kind: Seq<char>,
    weight_file: Seq<char>,
    remote_model: Seq<char>,
) -> Result<Seq<char>, Seq<char>> {
    if holds(arg, "{model_path}"@) && weight_file.len() == 0 {
        Err("{model_path} cannot be used by remote models"@)
    } else {
        let a = replaced(arg, "{manifest_path}"@, PACKAGE_MANIFEST_FILE_NAME@);
        let b = replaced(a, "{package_dir}"@, dir);
        let c = replaced(b, "{model_id}"@, m.id@);
        let d = replaced(c, "{model_display_name}"@, m.display_name@);
        let e = replaced(d, "{rule_line}"@, rule_line.spec_wire_value());
        let f = replaced(e, "{engine_kind}"@, engine_kind);
        let g = replaced(f, "{engine_location}"@, engine.location);
        let h = replaced(g, "{engine_protocol}"@, engine.protocol);
        let i = replaced(h, "{weight_file}"@, weight_file);
        let j = replaced(i, "{model_path}"@, weight_file);
        Ok(replaced(j, "{remote_model}"@, remote_model))
    }
}

fn fill(s: String, pat: &str, by: &str) -> (r: String)
    requires
        pat@.len() > 0,
    ensures
        r@ == replaced(s@, pat@, by@),
{
    replace_text(s.as_str(), pat, by)
}

fn expand_package_arg(arg: &str, kind: &PackageModelKind, rule_line: RuleLine) -> (r: Result<String, String>)
    ensures
        text_result(r) == plain_arg(arg@, kind@, rule_line),
{
    proof {
        reveal_strlit("");
        assert(""@ =~= Seq::empty());
        reveal_strlit("{model_path}");
        reveal_strlit("{rule_line}");
        assert("{model_path}"@.len() == 12);
        assert("{rule_line}"@.len() == 11);
    }
    let path: Option<&str> = match kind {
        PackageModelKind::Onnx { path } => Some(path.as_str()),
        _ => None,
    };
    if holds_text(arg, "{model_path}") && path.is_none() {
        return Err(owned("{model_path} cannot be used by remote models"));
    }
    let by = match path {
        Some(p) => p,
        None => "",
    };
    Ok(fill(replace_text(arg, "{model_path}", by), "{rule_line}", rule_line.wire_value()))
}

fn fill_arg(
    arg: &str,
    dir: &str,
    m: &PackageModelManifest,
    rule_line: RuleLine,
    engine: &ValidatedPackageEngine,
    engine_kind: &str,
    weight_file: &str,
    remote_model: &str,
) -> (r: Result<String, String>)
    ensures
        text_result(r) == filled_arg(arg@, dir@, *m, rule_line, engine@, engine_kind@, weight_file@, remote_model@),
{
    proof {
        reveal_strlit("{manifest_path}");
        reveal_strlit("{package_dir}");
        reveal_strlit("{model_id}");
        reveal_strlit("{model_display_name}");
        reveal_strlit("{rule_line}");
        reveal_strlit("{engine_kind}");
        reveal_strlit("{engine_location}");
        reveal_strlit("{engine_protocol}");
        reveal_strlit("{weight_file}");
        reveal_strlit("{model_path}");
        reveal_strlit("{remote_model}");
    }
    if holds_text(arg, "{model_path}") && weight_file.is_empty() {
        return Err(owned("{model_path} cannot be used by remote models"));
    }
    let a = replace_text(arg, "{manifest_path}", PACKAGE_MANIFEST_FILE_NAME);
    let b = fill(a, "{package_dir}", dir);
    let c = fill(b, "{model_id}", m.id.as_str());
    let d = fill(c, "{model_display_name}", m.display_name.as_str());
    let e = fill(d, "{rule_line}", rule_line.wire_value());
    let f = fill(e, "{engine_kind}", engine_kind);
    let g = fill(f, "{engine_location}", engine.location.as_str());
    let h = fill(g, "{engine_protocol}", engine.protocol.as_str());
    let i = fill(h, "{weight_file}", weight_file);
    let j = fill(i, "{model_path}", weight_file);
    Ok(fill(j, "{remote_model}", remote_model))
}

fn expand_runtime_package_arg(arg: &str, dir: &str, m: &PackageModelManifest, kind: &PackageModelKind, rule_line: RuleLine) -> (r: Result<
    String,
    String,
>)
    ensures
        text_result(r) == runtime_arg(arg@, dir@, *m, kind@, rule_line),
{
    proof {
        reveal_strlit("");
        assert(""@ =~= Seq::empty());
    }
    match kind {
        PackageModelKind::RuntimeLocal { weight_file, engine } => fill_arg(
            arg,
            dir,
            m,
            rule_line,
            engine,
            "local",
            weight_file.as_str(),
            "",
        ),
        PackageModelKind::RuntimeRemote { remote_model, engine } => fill_arg(
            arg,
            dir,
            m,
            rule_line,
            engine,
            "remote",
            "",
            remote_model.as_str(),
        ),
        _ => Err(owned("runtime placeholder expansion requires a schema 3 model")),
    }
}

/// An argument of a model, with its placeholders filled in.
pub open spec fn model_arg(arg: Seq<char>, dir: Seq<char>, m: PackageModelManifest, kind: KindFacts, rule_line: RuleLine, runtime: bool) -> Result<
    Seq<char>,
    Seq<char>,
> {
    if runtime { runtime_arg(arg, dir, m, kind, rule_line) } else { plain_arg(arg, kind, rule_line) }
}

/// Arguments of a model, with their placeholders filled in, or the first reason against one.
pub open spec fn model_args(args: Seq<Seq<char>>, dir: Seq<char>, m: PackageModelManifest, kind: KindFacts, rule_line: RuleLine, runtime: bool) -> Result<
    Seq<Seq<char>>,
    Seq<char>,
>
    decreases args.len(),
{
    if args.len() == 0 {
        Ok(Seq::empty())
    } else {
        match model_args(args.drop_last(), dir, m, kind, rule_line, runtime) {
            Err(e) => Err(e),
            Ok(rest) => match model_arg(args.last(), dir, m, kind, rule_line, runtime) {
                Err(e) => Err(e),
                Ok(a) => Ok(rest.push(a)),
            },
        }
    }
}

proof fn lemma_first_bad_arg(args: Seq<Seq<char>>, n: int, dir: Seq<char>, m: PackageModelManifest, kind: KindFacts, rule_line: RuleLine, runtime: bool)
    requires
        0 <= n <= args.len(),
        model_args(args.take(n), dir, m, kind, rule_line, runtime) is Err,
    ensures
        model_args(args, dir, m, kind, rule_line, runtime) == model_args(args.take(n), dir, m, kind, rule_line, runtime),
    decreases args.len() - n,
{
    if n == args.len() {
        assert(args.take(n) =~= args);
    } else {
        assert(args.take(n + 1).drop_last() =~= args.take(n));
        lemma_first_bad_arg(args, n + 1, dir, m, kind, rule_line, runtime);
    }
}

fn expand_args(args: &Vec<String>, dir: &str, m: &PackageModelManifest, kind: &PackageModelKind, rule_line: RuleLine, runtime: bool) -> (r: Result<
    Vec<String>,
    String,
>)
    ensures
        parts_result(r) == model_args(strings_view(args@), dir@, *m, kind@, rule_line, runtime),
{
    let ghost all = strings_view(args@);
    let mut out: Vec<String> = Vec::new();
    let mut i: usize = 0;
    assert(strings_view(out@) =~= Seq::empty());
    while i < args.len()
        invariant
            i <= args@.len(),
            all == strings_view(args@),
            model_args(all.take(i as int), dir@, *m, kind@, rule_line, runtime) == Ok::<Seq<Seq<char>>, Seq<char>>(
                strings_view(out@),
            ),
        decreases args@.len() - i,
    {
        let ghost before = out@;
        assert(all.take(i + 1).drop_last() =~= all.take(i as int));
        assert(all.take(i + 1).last() == args@[i as int]@);
        let filled = if runtime {
            expand_runtime_package_arg(args[i].as_str(), dir, m, kind, rule_line)
        } else {
            expand_package_arg(args[i].as_str(), kind, rule_line)
        };
        match filled {
            Ok(a) => {
                out.push(a);
                assert(strings_view(out@) =~= strings_view(before).push(a@));
            },
            Err(e) => {
                proof { lemma_first_bad_arg(all, i + 1, dir@, *m, kind@, rule_line, runtime); }
                return Err(e);
            },
        }
        i = i + 1;
    }
    assert(all.take(i as int) =~= all);
    Ok(out)
}

/// How a model is started: the arguments of its translator and its own. Those of the translator
/// have placeholders in the third schema alone.
pub open spec fn launch_args(dir: Seq<char>, package: PackageFacts, m: PackageModelManifest, kind: KindFacts, rule_line: RuleLine) -> Result<
    Seq<Seq<char>>,
    Seq<char>,
> {
    let runtime = package.schema == 3;
    let own = model_args(strings_view(m.args@), dir, m, kind, rule_line, runtime);
    let first = if runtime {
        model_args(package.translator.launch_prefix_args, dir, m, kind, rule_line, runtime)
    } else {
        Ok(package.translator.launch_prefix_args)
    };
    match (first, own) {
        (Err(e), _) => Err(e),
        (_, Err(e)) => Err(e),
        (Ok(a), Ok(b)) => Ok(a + b),
    }
}

/// A model of a package, or the first rule that it breaks.
pub open spec fn valid_model(dir: Seq<char>, package: PackageFacts, m: PackageModelManifest, files: Seq<Seq<char>>) -> Result<
    ModelFacts,
    Seq<char>,
> {
    if is_blank(m.id@) {
        Err("models.id is required"@)
    } else if is_blank(m.display_name@) {
        Err("display_name is required for model "@ + m.id@)
    } else {
        match line_named(m.rule_line@) {
            Err(e) => Err(e),
            Ok(rule_line) => match if package.schema == 3 {
                runtime_kind(m, rule_line, files)
            } else {
                plain_kind(m, rule_line, files)
            } {
                Err(e) => Err(e),
                Ok(kind) => match launch_args(dir, package, m, kind, rule_line) {
                    Err(e) => Err(e),
                    Ok(args) => Ok(
                        ModelFacts {
                            slug: m.id@,
                            rule_line,
                            riichi_style: package.riichi_style,
                            kind,
                            launch_args: args,
                        },
                    ),
                },
            },
        }
    }
}

/// A model or a reason, as facts.
pub open spec fn model_result(r: Result<ValidatedPackageModel, String>) -> Result<ModelFacts, Seq<char>> {
    match r {
        Ok(m) => Ok(m@),
        Err(e) => Err(e@),
    }
}

/// Checks a model of a package.
pub fn validate_package_model(dir: &str, package: &ValidatedPackage, model: &PackageModelManifest, files: &Vec<String>) -> (r: Result<
    ValidatedPackageModel,
    String,
>)
    ensures
        model_result(r) == valid_model(dir@, package@, *model, strings_view(files@)),
{
    if blank(model.id.as_str()) {
        return Err(owned("models.id is required"));
    }
    if blank(model.display_name.as_str()) {
        return Err(join2("display_name is required for model ", model.id.as_str()));
    }
    let rule_line = match rule_line_from(model.rule_line.as_str()) {
        Ok(l) => l,
        Err(e) => {
            return Err(e);
        },
    };
    let runtime = package.schema == 3;
    let checked = if runtime {
        check_runtime_kind(model, rule_line, files)
    } else {
        check_plain_kind(model, rule_line, files)
    };
    let kind = match checked {
        Ok(k) => k,
        Err(e) => {
            return Err(e);
        },
    };
    let first = if runtime {
        expand_args(&package.translator.launch_prefix_args, dir, model, &kind, rule_line, true)
    } else {
        Ok(copy_strings(&package.translator.launch_prefix_args))
    };
    let mut launch_args = match first {
        Ok(a) => a,
        Err(e) => {
            return Err(e);
        },
    };
    let own = match expand_args(&model.args, dir, model, &kind, rule_line, runtime) {
        Ok(a) => a,
        Err(e) => {
            return Err(e);
        },
    };
    extend_strings(&mut launch_args, &own);
    Ok(
        ValidatedPackageModel {
            slug: model.id.clone(),
            rule_line,
            riichi_style: package.riichi_style,
            kind,
            launch_args,
        },
    )
}

/// A model fragment that repeats a model of the package.
pub open spec fn repeats_model(models: Seq<PackageModelManifest>, m: PackageModelManifest) -> bool {
    exists|i: int| 0 <= i < models.len() && (#[trigger] models[i]).id@ == m.id@ && models[i].rule_line@ == m.rule_line@
}

/// Adds a model fragment to a package's manifest, which has each model once per game.
pub fn add_model(manifest: &mut PackageManifest, model: PackageModelManifest) -> (r: Result<(), String>)
    ensures
        if repeats_model(old(manifest).models@, model) {
            r is Err && r->Err_0@ == "duplicate package model "@ + model.id@ + " for "@ + model.rule_line@ && *final(manifest)
                == *old(manifest)
        } else {
            r is Ok && final(manifest).models@ == old(manifest).models@.push(model) && final(manifest).schema
                == old(manifest).schema && final(manifest).package_id == old(manifest).package_id
                && final(manifest).display_name == old(manifest).display_name && final(manifest).protocol
                == old(manifest).protocol && final(manifest).riichi_style == old(manifest).riichi_style
                && final(manifest).translator == old(manifest).translator && final(manifest).caps == old(manifest).caps
        },
{
    let mut i: usize = 0;
    while i < manifest.models.len()
        invariant
            i <= manifest.models@.len(),
            *manifest == *old(manifest),
            forall|j: int|
                0 <= j < i ==> !((#[trigger] manifest.models@[j]).id@ == model.id@ && manifest.models@[j].rule_line@
                    == model.rule_line@),
        decreases manifest.models@.len() - i,
    {
        if same(manifest.models[i].id.as_str(), model.id.as_str()) && same(
            manifest.models[i].rule_line.as_str(),
            model.rule_line.as_str(),
        ) {
            let mut e = join3("duplicate package model ", model.id.as_str(), " for ");
            e.append(model.rule_line.as_str());
            return Err(e);
        }
        i = i + 1;
    }
    manifest.models.push(model);
    Ok(())
}

} // verus!
