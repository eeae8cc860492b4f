//! One-way notifications that the server gets from the client.
//!
//! A document that is not a file is passed over: where a parameter names one
//! whose path is absent, the notification is answered with an error that has
//! nothing to say.
use crate::actions::compile_info::{
    compile_info_needs_roots, compile_info_taken_over, is_among, roots_are_paths, ConfigFiles,
};
use crate::actions::config_change::{
    compile_info_changed, config_change_effects, config_change_needs_roots, lint_config_after,
    lint_config_changed,
};
use crate::actions::context::{
    CompilationInfoStorage, ContextDefinition, ContextKey, ContextView, InitActionContext,
    Workspace,
};
use crate::actions::contexts::{contexts_chosen, contexts_chosen_marks};
use crate::actions::file_watch::{is_watched, watchers_for, FileEvent, FileWatch};
use crate::actions::init::init_effects;
use crate::actions::versions::{changes_after, version_order, VersionOrdering};
use crate::collections::{add_mark, push_new, without, Keyed, VecSet};
use crate::config::Config;
use crate::effects::{
    change_views, opt_path, Change, ChangeView, Effect, EffectView, Outbox,
};
use crate::errors::{range_to_dls, DocumentRange, SpanView, ZeroSpan};
use crate::path::{CanonPath, FilePath, PathView};
use crate::server::message::{
    ClientRequest, ClientRequestKind, ClientRequestView, IdView, MessageType, RequestId,
    ResponseError,
};
use crate::server::methods::NotificationMethod;
use crate::server::notify::{
    deprecations_shown, duplicates_shown, maybe_notify_deprecated_configs,
    maybe_notify_duplicated_configs, maybe_notify_unknown_configs, message_shown,
    unknown_configs_logged, warning_message, DeprecatedKey, DuplicatedKey,
};
use crate::span::{range_of, ZeroRange};
use crate::text::texts;
use vstd::prelude::*;
use vstd::string::*;

verus! {

/// A file that a notification names.
pub struct FileRef {
    /// The path that the client uses.
    pub path: FilePath,
    /// Where the path leads to.
    pub canon_path: CanonPath,
}

/// What the handling of a notification comes to that needs a file: an error
/// with nothing to say where the document is none.
pub open spec fn file_result(is_file: bool) -> Result<(), ResponseError> {
    if is_file {
        Ok(())
    } else {
        Err(ResponseError::Empty)
    }
}

/// The `initialized` notification.
pub struct Initialized;

/// The registration for changes of the configuration.
pub open spec fn config_registration() -> ClientRequestView {
    ClientRequestView::RegisterCapability {
        id: "dls-config"@,
        method: "workspace/didChangeConfiguration"@,
        register_options: None,
    }
}

/// The registration for changes of the files that are watched.
pub open spec fn watch_registration(ctx: InitActionContext) -> ClientRequestView {
    ClientRequestView::RegisterCapability {
        id: "dls-watch"@,
        method: "workspace/didChangeWatchedFiles"@,
        register_options: match ctx.config.compile_info_path {
            Some(path) => Some(watchers_for(path@.text)),
            None => None,
        },
    }
}

/// Whether the server asks for the configuration when it changes: it may
/// register for changes, and it may ask.
pub open spec fn pulls_config(ctx: InitActionContext) -> bool {
    ctx.client_capabilities.did_change_configuration == (true, true)
        && ctx.client_capabilities.configuration
}

/// What the `initialized` notification sets off.
pub open spec fn initialized_effects(
    ctx: InitActionContext,
    config_id: IdView,
    watch_id: IdView,
) -> Seq<EffectView> {
    let watch = EffectView::SendRequest { id: watch_id, request: watch_registration(ctx) };
    if pulls_config(ctx) {
        seq![EffectView::SendRequest { id: config_id, request: config_registration() }, watch]
    } else {
        seq![watch]
    }
}

/// How the `initialized` notification changes what the server keeps: the
/// requests that it sends are to be answered.
pub open spec fn initialized_taken(
    before: InitActionContext,
    after: InitActionContext,
    config_id: IdView,
    watch_id: IdView,
) -> bool {
    let kind = ClientRequestKind::RegisterCapability;
    &&& after == (InitActionContext {
        outstanding_requests: after.outstanding_requests,
        ..before
    })
    &&& after.outstanding_requests@ == (if pulls_config(before) {
        before.outstanding_requests@.insert(config_id, kind).insert(watch_id, kind)
    } else {
        before.outstanding_requests@.insert(watch_id, kind)
    })
}

impl Initialized {
    /// Registers for changes of the configuration, where the server asks for
    /// it when it changes, and of the files that are watched. The ids are those
    /// of the two requests.
    pub fn handle(
        config_id: RequestId,
        watch_id: RequestId,
        ctx: &mut InitActionContext,
        out: &mut Outbox,
    ) -> (result: Result<(), ResponseError>)
        ensures
            result == Ok::<(), ResponseError>(()),
            initialized_taken(*old(ctx), *final(ctx), config_id@, watch_id@),
            final(out)@ == old(out)@ + initialized_effects(*old(ctx), config_id@, watch_id@),
    {
        let ghost before = out@;
        let (told, registers) = ctx.client_capabilities.did_change_configuration;
        if told && registers && ctx.client_capabilities.configuration {
            let request = ClientRequest::RegisterCapability {
                id: "dls-config".to_owned(),
                method: NotificationMethod::DidChangeConfiguration.method_name().to_owned(),
                register_options: None,
            };
            assert(request@ == config_registration());
            ctx.send_request(config_id, request, out);
        }
        let register_options = match FileWatch::new(ctx) {
            Some(watch) => Some(watch.watchers_config()),
            None => None,
        };
        let request = ClientRequest::RegisterCapability {
            id: "dls-watch".to_owned(),
            method: NotificationMethod::DidChangeWatchedFiles.method_name().to_owned(),
            register_options,
        };
        assert(request@ == watch_registration(*old(ctx)));
        ctx.send_request(watch_id, request, out);
        assert(out@ =~= before + initialized_effects(*old(ctx), config_id@, watch_id@));
        Ok(())
    }
}

/// What has a file analysed, unless that waits until it is saved.
pub open spec fn analysed_unless_on_save(ctx: InitActionContext, path: PathView) -> Seq<
    EffectView,
> {
    if ctx.config.analyse_on_save {
        Seq::empty()
    } else {
        seq![EffectView::IsolatedAnalyze { path, context: None }]
    }
}

/// Has a file analysed, unless that waits until it is saved.
fn analyse_unless_on_save(ctx: &InitActionContext, path: &FilePath, out: &mut Outbox)
    ensures
        final(out)@ == old(out)@ + analysed_unless_on_save(*ctx, path@),
{
    if !ctx.config.analyse_on_save {
        out.push(Effect::IsolatedAnalyze { path: path.duplicate(), context: None });
    }
    assert(out@ =~= old(out)@ + analysed_unless_on_save(*ctx, path@));
}

/// The client opened a document.
pub struct DidOpenTextDocument;

/// What opening a document sets off.
pub open spec fn open_effects(
    ctx: InitActionContext,
    file: Option<FileRef>,
    text: Seq<char>,
) -> Seq<EffectView> {
    match file {
        Some(file) => seq![EffectView::SetFile { path: file.path@, text }]
            + analysed_unless_on_save(ctx, file.path@) + seq![EffectView::ReportErrors],
        None => Seq::empty(),
    }
}

/// How opening a document changes what the server keeps: its sequence numbers
/// start anew, and it counts as open.
pub open spec fn opened(
    before: InitActionContext,
    after: InitActionContext,
    file: Option<FileRef>,
) -> bool {
    match file {
        Some(file) => {
            &&& after == (InitActionContext {
                prev_changes: after.prev_changes,
                direct_opens: after.direct_opens,
                ..before
            })
            &&& after.prev_changes@ == before.prev_changes@.remove(file.path.key())
            &&& after.direct_opens@ == before.direct_opens@.insert(file.canon_path.key())
            &&& after.direct_opens.views() == push_new(
                before.direct_opens@,
                before.direct_opens.views(),
                file.canon_path.key(),
                file.canon_path@,
            )
        },
        None => after == before,
    }
}

impl DidOpenTextDocument {
    /// Takes the document over: its sequence numbers start anew, it counts as
    /// open, it is analysed unless that waits until it is saved, and errors are
    /// reported.
    pub fn handle(
        file: &Option<FileRef>,
        text: &str,
        ctx: &mut InitActionContext,
        out: &mut Outbox,
    ) -> (result: Result<(), ResponseError>)
        ensures
            result == file_result(*file is Some),
            opened(*old(ctx), *final(ctx), *file),
            final(out)@ == old(out)@ + open_effects(*old(ctx), *file, text@),
    {
        let ghost before = out@;
        let file = match file {
            Some(file) => file,
            None => {
                assert(out@ =~= before + Seq::<EffectView>::empty());
                return Err(ResponseError::Empty);
            },
        };
        ctx.reset_change_version(&file.path);
        out.push(Effect::SetFile { path: file.path.duplicate(), text: text.to_owned() });
        ctx.add_direct_open(&file.canon_path);
        analyse_unless_on_save(ctx, &file.path, out);
        out.push(Effect::ReportErrors);
        assert(out@ =~= before + open_effects(*old(ctx), Some(*file), text@));
        Ok(())
    }
}

/// The client closed a document.
pub struct DidCloseTextDocument;

/// What closing a document sets off.
pub open spec fn close_effects(file: Option<FileRef>) -> Seq<EffectView> {
    if file is Some {
        seq![EffectView::ReportErrors]
    } else {
        Seq::empty()
    }
}

/// How closing a document changes what the server keeps: it does not count as
/// open any more. The other open files stay as they are, in their order.
pub open spec fn closed(
    before: InitActionContext,
    after: InitActionContext,
    file: Option<FileRef>,
) -> bool {
    match file {
        Some(file) => {
            &&& after == (InitActionContext { direct_opens: after.direct_opens, ..before })
            &&& after.direct_opens@ == before.direct_opens@.remove(file.canon_path.key())
            &&& after.direct_opens.members() == without(
                before.direct_opens,
                file.canon_path.key(),
            )
        },
        None => after == before,
    }
}

impl DidCloseTextDocument {
    /// The document does not count as open any more, and errors are reported.
    pub fn handle(
        file: &Option<FileRef>,
        ctx: &mut InitActionContext,
        out: &mut Outbox,
    ) -> (result: Result<(), ResponseError>)
        ensures
            result == file_result(*file is Some),
            closed(*old(ctx), *final(ctx), *file),
            final(out)@ == old(out)@ + close_effects(*file),
    {
        let file = match file {
            Some(file) => file,
            None => {
                assert(out@ =~= old(out)@ + Seq::<EffectView>::empty());
                return Err(ResponseError::Empty);
            },
        };
        ctx.remove_direct_open(&file.canon_path);
        out.push(Effect::ReportErrors);
        assert(out@ =~= old(out)@ + seq![EffectView::ReportErrors]);
        Ok(())
    }
}

/// A change of a document's text.
pub struct ContentChange {
    /// What is replaced; the whole text where it is absent.
    pub range: Option<DocumentRange>,
    /// How long what is replaced is.
    pub range_length: Option<u32>,
    pub text: String,
}

/// The change of a file that a change of a document is.
pub open spec fn change_of(change: ContentChange, file: PathView) -> ChangeView {
    match change.range {
        Some(range) => ChangeView::ReplaceText {
            span: SpanView { range: range_in_rows(range), file },
            length: match change.range_length {
                Some(length) => Some(length as u64),
                None => None,
            },
            text: change.text@,
        },
        None => ChangeView::AddFile { file, text: change.text@ },
    }
}

/// The range, counted as the library does.
pub open spec fn range_in_rows(range: DocumentRange) -> ZeroRange {
    range_of(
        range.start.line,
        range.end.line,
        range.start.character,
        range.end.character,
    )
}

/// The changes of a file that changes of a document are.
pub open spec fn changes_of(changes: Seq<ContentChange>, file: PathView) -> Seq<ChangeView> {
    changes.map_values(|c: ContentChange| change_of(c, file))
}

/// Turns changes of a document into changes of a file.
fn to_changes(content_changes: &Vec<ContentChange>, file: &FilePath) -> (changes: Vec<Change>)
    ensures
        change_views(changes@) == changes_of(content_changes@, file@),
{
    let mut changes: Vec<Change> = Vec::new();
    let mut i: usize = 0;
    while i < content_changes.len()
        invariant
            i <= content_changes@.len(),
            changes@.len() == i,
            forall|j: int|
                0 <= j < i ==> (#[trigger] changes@[j])@ == change_of(content_changes@[j], file@),
        decreases content_changes@.len() - i,
    {
        let change = &content_changes[i];
        let new = match change.range {
            Some(range) => {
                let length: Option<u64> = match change.range_length {
                    Some(length) => Some(length as u64),
                    None => None,
                };
                Change::ReplaceText {
                    span: ZeroSpan { range: range_to_dls(range), file: file.duplicate() },
                    length,
                    text: change.text.clone(),
                }
            },
            None => Change::AddFile { file: file.duplicate(), text: change.text.clone() },
        };
        changes.push(new);
        i += 1;
    }
    assert(change_views(changes@) =~= changes_of(content_changes@, file@));
    changes
}

/// How the standard library writes a path for debugging.
pub uninterp spec fn debug_path(path: Seq<char>) -> Seq<char>;

/// The `Debug` form of `std::path::Path`, which quotes the path and escapes
/// some of its characters. Which ones is not stated here. The result depends on
/// the path alone.
#[verifier::external_body]
fn format_debug_path(path: &str) -> (text: String)
    ensures
        text@ == debug_path(path@),
{
    format!("{:?}", std::path::Path::new(path))
}

/// The client changed a document.
pub struct DidChangeTextDocument;

/// What a change sets off that is in order.
pub open spec fn change_in_order_effects(
    ctx: InitActionContext,
    file: FileRef,
    content_changes: Seq<ContentChange>,
) -> Seq<EffectView> {
    seq![
        EffectView::ChangeFiles { changes: changes_of(content_changes, file.path@) },
        EffectView::MarkFileDirty { path: file.canon_path@ },
    ] + analysed_unless_on_save(ctx, file.path@)
}

/// What a change sets off: one that is in order is taken over, a duplicate is
/// passed over, and of one that is out of order the user is warned.
pub open spec fn change_effects(
    ctx: InitActionContext,
    file: Option<FileRef>,
    version: i32,
    content_changes: Seq<ContentChange>,
) -> Seq<EffectView> {
    match file {
        Some(file) => if content_changes.len() == 0 {
            Seq::empty()
        } else {
            match version_order(ctx.prev_changes@, file.path.key(), version) {
                VersionOrdering::InOrder => change_in_order_effects(ctx, file, content_changes),
                VersionOrdering::Duplicate => Seq::empty(),
                VersionOrdering::OutOfOrder => seq![
                    out_of_order_warning(debug_path(file.path@.text)),
                ],
            }
        },
        None => Seq::empty(),
    }
}

/// How a change changes what the server keeps: it is not quiescent any more,
/// and the sequence number is remembered if it is in order.
pub open spec fn changed(
    before: InitActionContext,
    after: InitActionContext,
    file: Option<FileRef>,
    version: i32,
    content_changes: Seq<ContentChange>,
) -> bool {
    if content_changes.len() == 0 {
        after == before
    } else {
        match file {
            Some(file) => {
                &&& after == (InitActionContext {
                    quiescent: false,
                    prev_changes: after.prev_changes,
                    ..before
                })
                &&& after.prev_changes@ == changes_after(
                    before.prev_changes@,
                    file.path.key(),
                    version,
                )
            },
            None => after == (InitActionContext { quiescent: false, ..before }),
        }
    }
}

/// The warning about a change that is out of order, given how the path is
/// written.
pub open spec fn out_of_order_warning(written: Seq<char>) -> EffectView {
    message_shown(MessageType::Warning, "Out of order change in "@ + written)
}

/// Words the warning about a change that is out of order, given how the path
/// is written.
pub fn warn_out_of_order(written: &str, out: &mut Outbox)
    ensures
        final(out)@ == old(out)@.push(out_of_order_warning(written@)),
{
    let mut message = "Out of order change in ".to_owned();
    message.append(written);
    warning_message(out, message);
}

impl DidChangeTextDocument {
    /// Takes the change over if it is in order. A duplicate is passed over; of
    /// a change that is out of order the user is warned.
    pub fn handle(
        file: &Option<FileRef>,
        version: i32,
        content_changes: &Vec<ContentChange>,
        ctx: &mut InitActionContext,
        out: &mut Outbox,
    ) -> (result: Result<(), ResponseError>)
        ensures
            result == file_result(content_changes@.len() == 0 || *file is Some),
            changed(*old(ctx), *final(ctx), *file, version, content_changes@),
            final(out)@ == old(out)@ + change_effects(
                *old(ctx),
                *file,
                version,
                content_changes@,
            ),
    {
        let ghost before = out@;
        if content_changes.len() == 0 {
            assert(out@ =~= before + Seq::<EffectView>::empty());
            return Ok(());
        }
        ctx.quiescent = false;
        let file = match file {
            Some(file) => file,
            None => {
                assert(out@ =~= before + Seq::<EffectView>::empty());
                return Err(ResponseError::Empty);
            },
        };
        match ctx.check_change_version(&file.path, version) {
            VersionOrdering::InOrder => {},
            VersionOrdering::Duplicate => {
                assert(out@ =~= before + Seq::<EffectView>::empty());
                return Ok(());
            },
            VersionOrdering::OutOfOrder => {
                let written = format_debug_path(file.path.text.as_str());
                warn_out_of_order(written.as_str(), out);
                assert(out@ =~= before + seq![out_of_order_warning(debug_path(file.path@.text))]);
                return Ok(());
            },
        }
        let changes = to_changes(content_changes, &file.path);
        out.push(Effect::ChangeFiles { changes });
        out.push(Effect::MarkFileDirty { path: file.canon_path.duplicate() });
        analyse_unless_on_save(ctx, &file.path, out);
        assert(out@ =~= before + change_in_order_effects(*old(ctx), *file, content_changes@));
        Ok(())
    }
}

/// The client gives a request up.
pub struct Cancel;

impl Cancel {
    /// There is nothing to do.
    pub fn handle(ctx: &mut InitActionContext, out: &mut Outbox) -> (result: Result<
        (),
        ResponseError,
    >)
        ensures
            result == Ok::<(), ResponseError>(()),
            *final(ctx) == *old(ctx),
            final(out)@ == old(out)@,
    {
        Ok(())
    }
}

/// The client's configuration changed.
pub struct DidChangeConfiguration;

/// What the settings look like that come with a change of the configuration.
#[derive(Clone, Copy, PartialEq, Eq, Structural, Debug)]
pub enum SettingsShape {
    Null,
    /// An object with this many entries.
    Object(usize),
    Other,
}

/// The settings that come with a change of the configuration.
pub struct ConfigSettings {
    pub shape: SettingsShape,
    /// The configuration, or why they are none.
    pub config: Result<Config, String>,
    pub unknowns: Vec<String>,
    pub deprecated: Vec<DeprecatedKey>,
    pub duplicated: Vec<DuplicatedKey>,
}

/// Whether the settings say no more than that the server should ask for them.
pub open spec fn asks_to_pull(shape: SettingsShape) -> bool {
    shape == SettingsShape::Null || shape == SettingsShape::Object(0)
}

/// What the user is told about settings.
pub open spec fn settings_shown(settings: ConfigSettings) -> Seq<EffectView> {
    unknown_configs_logged(texts(settings.unknowns@)) + deprecations_shown(settings.deprecated@)
        + duplicates_shown(settings.duplicated@)
}

/// Tells the user about settings.
pub fn show_settings(
    unknowns: &Vec<String>,
    deprecated: &Vec<DeprecatedKey>,
    duplicated: &Vec<DuplicatedKey>,
    out: &mut Outbox,
)
    ensures
        final(out)@ == old(out)@ + (unknown_configs_logged(texts(unknowns@)) + deprecations_shown(
            deprecated@,
        ) + duplicates_shown(duplicated@)),
{
    let ghost before = out@;
    maybe_notify_unknown_configs(out, unknowns);
    maybe_notify_deprecated_configs(out, deprecated);
    maybe_notify_duplicated_configs(out, duplicated);
    assert(out@ =~= before + (unknown_configs_logged(texts(unknowns@)) + deprecations_shown(
        deprecated@,
    ) + duplicates_shown(duplicated@)));
}

/// The context with another configuration in force.
pub open spec fn with_config(ctx: InitActionContext, config: Config) -> InitActionContext {
    InitActionContext { config, ..ctx }
}

/// What a change of the client's configuration sets off. `info` is what is known
/// of the compilation afterwards.
pub open spec fn configuration_effects(
    ctx: InitActionContext,
    settings: ConfigSettings,
    files: ConfigFiles,
    id: IdView,
    info: CompilationInfoStorage,
) -> Seq<EffectView> {
    if asks_to_pull(settings.shape) {
        seq![
            EffectView::SendRequest {
                id,
                request: ClientRequestView::WorkspaceConfiguration {
                    section: "simics-modeling.dls"@,
                },
            },
        ]
    } else {
        settings_shown(settings) + (match settings.config {
            Ok(config) => config_change_effects(
                with_config(ctx, config),
                ctx.config@,
                files,
                info,
            ),
            Err(_) => Seq::empty(),
        })
    }
}

/// How a change of the client's configuration changes what the server keeps:
/// the request is to be answered that asks for the settings; or the settings
/// are in force, where they make a configuration.
pub open spec fn configuration_taken(
    before: InitActionContext,
    after: InitActionContext,
    settings: ConfigSettings,
    files: ConfigFiles,
    id: IdView,
) -> bool {
    if asks_to_pull(settings.shape) {
        &&& after == (InitActionContext {
            outstanding_requests: after.outstanding_requests,
            ..before
        })
        &&& after.outstanding_requests@ == before.outstanding_requests@.insert(
            id,
            ClientRequestKind::WorkspaceConfiguration,
        )
    } else {
        match settings.config {
            Ok(config) => {
                let changed = with_config(before, config);
                &&& after == (InitActionContext {
                    compilation_info: after.compilation_info,
                    lint_config: lint_config_changed(changed, before.config@, files.lint_cfg),
                    ..changed
                })
                &&& compile_info_changed(
                    changed,
                    before.config@,
                    files.compile_info,
                    after.compilation_info,
                )
            },
            Err(_) => after == before,
        }
    }
}

/// Whether a change of the client's configuration needs the roots of the
/// workspaces.
pub open spec fn configuration_needs_roots(
    ctx: InitActionContext,
    settings: ConfigSettings,
    files: ConfigFiles,
) -> bool {
    !asks_to_pull(settings.shape) && (settings.config matches Ok(config)
        && config_change_needs_roots(with_config(ctx, config), ctx.config@, files))
}

impl DidChangeConfiguration {
    /// Asks for the configuration where the settings say so, or takes the
    /// settings over. `id` is that of the request, and `files` is what the
    /// files hold that the new configuration names.
    pub fn handle(
        settings: ConfigSettings,
        files: &ConfigFiles,
        id: RequestId,
        ctx: &mut InitActionContext,
        out: &mut Outbox,
    ) -> (result: Result<(), ResponseError>)
        requires
            configuration_needs_roots(*old(ctx), settings, *files) ==> roots_are_paths(
                old(ctx).workspace_roots@,
            ),
        ensures
            result == file_result(asks_to_pull(settings.shape) || settings.config is Ok),
            configuration_taken(*old(ctx), *final(ctx), settings, *files, id@),
            final(out)@ == old(out)@ + configuration_effects(
                *old(ctx),
                settings,
                *files,
                id@,
                final(ctx).compilation_info,
            ),
    {
        let ghost before = out@;
        let pull = match settings.shape {
            SettingsShape::Null => true,
            SettingsShape::Object(entries) => entries == 0,
            SettingsShape::Other => false,
        };
        if pull {
            let request = ClientRequest::WorkspaceConfiguration {
                section: "simics-modeling.dls".to_owned(),
            };
            ctx.send_request(id, request, out);
            assert(out@ =~= before + configuration_effects(
                *old(ctx),
                settings,
                *files,
                id@,
                ctx.compilation_info,
            ));
            return Ok(());
        }
        show_settings(&settings.unknowns, &settings.deprecated, &settings.duplicated, out);
        let ghost shown = settings_shown(settings);
        let new_config = match settings.config {
            Ok(config) => config,
            Err(_) => {
                assert(out@ =~= before + (shown + Seq::<EffectView>::empty()));
                return Err(ResponseError::Empty);
            },
        };
        let old_config = ctx.config.copy();
        ctx.config.update(new_config);
        let ghost new_ctx = *ctx;
        ctx.maybe_changed_config(&old_config, files, out);
        let ghost rest = config_change_effects(
            new_ctx,
            old(ctx).config@,
            *files,
            ctx.compilation_info,
        );
        assert(before + shown + rest =~= before + (shown + rest));
        Ok(())
    }
}

/// The client saved a document.
pub struct DidSaveTextDocument;

/// What saving a document sets off.
pub open spec fn save_effects(ctx: InitActionContext, file: Option<FilePath>) -> Seq<EffectView> {
    match file {
        Some(path) => seq![EffectView::FileSaved { path: path@ }] + (
        if ctx.config.analyse_on_save {
            seq![EffectView::IsolatedAnalyze { path: path@, context: None }]
        } else {
            Seq::empty()
        }),
        None => Seq::empty(),
    }
}

impl DidSaveTextDocument {
    /// The file is analysed now, if that waits until it is saved.
    pub fn handle(
        file: &Option<FilePath>,
        ctx: &mut InitActionContext,
        out: &mut Outbox,
    ) -> (result: Result<(), ResponseError>)
        ensures
            result == file_result(*file is Some),
            *final(ctx) == *old(ctx),
            final(out)@ == old(out)@ + save_effects(*old(ctx), *file),
    {
        let ghost before = out@;
        let path = match file {
            Some(path) => path,
            None => {
                assert(out@ =~= before + Seq::<EffectView>::empty());
                return Err(ResponseError::Empty);
            },
        };
        out.push(Effect::FileSaved { path: path.duplicate() });
        if ctx.config.analyse_on_save {
            out.push(Effect::IsolatedAnalyze { path: path.duplicate(), context: None });
        }
        assert(out@ =~= before + save_effects(*old(ctx), Some(*path)));
        Ok(())
    }
}

/// Files changed that the client watches.
pub struct DidChangeWatchedFiles;

/// Whether a file that is watched is among those that changed.
pub open spec fn watched_changed(ctx: InitActionContext, changes: Seq<FileEvent>) -> bool {
    ctx.config.compile_info_path matches Some(path) && exists|i: int|
        0 <= i < changes.len() && is_watched(path@, opt_path((#[trigger] changes[i]).path))
}

/// What changes of files set off. `info` is what is known of the compilation
/// afterwards.
pub open spec fn watched_effects(
    ctx: InitActionContext,
    changes: Seq<FileEvent>,
    files: ConfigFiles,
    info: CompilationInfoStorage,
) -> Seq<EffectView> {
    if watched_changed(ctx, changes) {
        init_effects(ctx, files, info)
    } else {
        Seq::empty()
    }
}

/// How changes of files change what the server keeps: if a file changed that
/// is watched, what the files hold is taken over that the configuration names.
pub open spec fn watched_taken(
    before: InitActionContext,
    after: InitActionContext,
    changes: Seq<FileEvent>,
    files: ConfigFiles,
) -> bool {
    if watched_changed(before, changes) {
        &&& after == (InitActionContext {
            compilation_info: after.compilation_info,
            lint_config: lint_config_after(before, files.lint_cfg),
            ..before
        })
        &&& compile_info_taken_over(before, files.compile_info, after.compilation_info)
    } else {
        after == before
    }
}

/// Whether changes of files need the roots of the workspaces.
pub open spec fn watched_needs_roots(
    ctx: InitActionContext,
    changes: Seq<FileEvent>,
    files: ConfigFiles,
) -> bool {
    watched_changed(ctx, changes) && compile_info_needs_roots(ctx, files.compile_info)
}

impl DidChangeWatchedFiles {
    /// Takes the compile information and the lint configuration over again if
    /// a file changed that is watched. `files` is what they hold.
    pub fn handle(
        changes: &Vec<FileEvent>,
        files: &ConfigFiles,
        ctx: &mut InitActionContext,
        out: &mut Outbox,
    ) -> (result: Result<(), ResponseError>)
        requires
            watched_needs_roots(*old(ctx), changes@, *files) ==> roots_are_paths(
                old(ctx).workspace_roots@,
            ),
        ensures
            result == Ok::<(), ResponseError>(()),
            watched_taken(*old(ctx), *final(ctx), changes@, *files),
            final(out)@ == old(out)@ + watched_effects(
                *old(ctx),
                changes@,
                *files,
                final(ctx).compilation_info,
            ),
    {
        let file_watch = match FileWatch::new(ctx) {
            Some(file_watch) => file_watch,
            None => {
                assert(out@ =~= old(out)@ + Seq::<EffectView>::empty());
                return Ok(());
            },
        };
        let mut i: usize = 0;
        let mut relevant = false;
        while i < changes.len() && !relevant
            invariant
                i <= changes@.len(),
                relevant ==> i > 0 && is_watched(
                    file_watch.file_path@,
                    opt_path(changes@[i - 1].path),
                ),
                !relevant ==> forall|j: int|
                    0 <= j < i ==> !is_watched(
                        file_watch.file_path@,
                        opt_path((#[trigger] changes@[j]).path),
                    ),
            decreases changes@.len() - i,
        {
            relevant = file_watch.is_relevant(&changes[i]);
            i += 1;
        }
        assert(relevant == watched_changed(*ctx, changes@));
        if relevant {
            ctx.init(files, out);
        } else {
            assert(out@ =~= old(out)@ + Seq::<EffectView>::empty());
        }
        Ok(())
    }
}

/// The folders changed that the client works in.
pub struct DidChangeWorkspaceFolders;

/// How a change of folders changes what the server keeps: those removed are
/// gone, and the new ones stand behind the others.
pub open spec fn folders_taken(
    before: InitActionContext,
    after: InitActionContext,
    added: Seq<Workspace>,
    removed: Seq<Workspace>,
) -> bool {
    &&& after == (InitActionContext { workspace_roots: after.workspace_roots, ..before })
    &&& after.workspace_roots@ == before.workspace_roots@.filter(
        |w: Workspace| !is_among(w, removed),
    ) + added
}

impl DidChangeWorkspaceFolders {
    /// Takes the change over.
    pub fn handle(
        added: Vec<Workspace>,
        removed: &Vec<Workspace>,
        ctx: &mut InitActionContext,
    ) -> (result: Result<(), ResponseError>)
        ensures
            result == Ok::<(), ResponseError>(()),
            folders_taken(*old(ctx), *final(ctx), added@, removed@),
    {
        ctx.update_workspaces(added, removed);
        Ok(())
    }
}

/// A document that the client names, and where it really is, if it can be
/// found.
pub struct ContextUri {
    pub uri: String,
    pub canon_path: Option<CanonPath>,
}

/// A context that the client names.
pub enum ContextDefinitionKindParam {
    Synthetic(ContextUri),
    Device(ContextUri),
}

impl ContextDefinitionKindParam {
    /// What tells the context apart, where its document can be found.
    pub open spec fn context_key(&self) -> Option<ContextKey> {
        match self {
            ContextDefinitionKindParam::Synthetic(uri) => match uri.canon_path {
                Some(path) => Some(ContextKey::Simulated(path.key())),
                None => None,
            },
            ContextDefinitionKindParam::Device(uri) => match uri.canon_path {
                Some(path) => Some(ContextKey::Device(path.key())),
                None => None,
            },
        }
    }

    /// The same with what the context says.
    pub open spec fn context_mark(&self) -> Option<(ContextKey, ContextView)> {
        match (self, self.context_key()) {
            (ContextDefinitionKindParam::Synthetic(uri), Some(k)) => Some(
                (k, ContextView::Simulated(uri.canon_path->0@)),
            ),
            (ContextDefinitionKindParam::Device(uri), Some(k)) => Some(
                (k, ContextView::Device(uri.canon_path->0@)),
            ),
            (_, None) => None,
        }
    }

    /// The context, where its document can be found.
    pub fn to_context_def(&self) -> (context: Option<ContextDefinition>)
        ensures
            match (context, self.context_mark()) {
                (Some(c), Some(mark)) => c.key() == mark.0 && c@ == mark.1,
                (None, None) => true,
                _ => false,
            },
    {
        match self {
            ContextDefinitionKindParam::Synthetic(uri) => match &uri.canon_path {
                Some(path) => Some(ContextDefinition::Simulated(path.duplicate())),
                None => None,
            },
            ContextDefinitionKindParam::Device(uri) => match &uri.canon_path {
                Some(path) => Some(ContextDefinition::Device(path.duplicate())),
                None => None,
            },
        }
    }
}

/// The contexts that the client chooses, and the document for which it does.
pub struct ChangeActiveContextsParams {
    pub active_contexts: Vec<ContextDefinitionKindParam>,
    /// Where it is absent, the choice is for all documents.
    pub uri: Option<ContextUri>,
}

/// The client chooses contexts.
pub struct ChangeActiveContexts;

/// The devices among the contexts that can be found.
pub open spec fn devices_named(contexts: Seq<ContextDefinitionKindParam>) -> Set<ContextKey> {
    Set::new(
        |c: ContextKey|
            c is Device && exists|i: int|
                0 <= i < contexts.len() && (#[trigger] contexts[i]).context_key() == Some(c),
    )
}

/// The devices among the contexts that can be found, in order, with what they
/// say.
pub open spec fn device_marks(contexts: Seq<ContextDefinitionKindParam>) -> Seq<
    (ContextKey, ContextView),
>
    decreases contexts.len(),
{
    if contexts.len() == 0 {
        Seq::empty()
    } else {
        let before = device_marks(contexts.drop_last());
        match contexts.last().context_mark() {
            Some(mark) => if mark.0 is Device {
                add_mark(before, mark)
            } else {
                before
            },
            None => before,
        }
    }
}

/// What the active contexts say after the client chose.
pub open spec fn active_marks_after_choice(
    ctx: InitActionContext,
    params: ChangeActiveContextsParams,
) -> Seq<(ContextKey, ContextView)> {
    let chosen = device_marks(params.active_contexts@);
    match params.uri {
        None => chosen,
        Some(uri) => match uri.canon_path {
            Some(path) => contexts_chosen_marks(
                ctx.analysis,
                ctx.device_active_contexts.marks(),
                path.key(),
                devices_named(params.active_contexts@),
                chosen,
            ),
            None => ctx.device_active_contexts.marks(),
        },
    }
}

/// The active contexts after the client chose: for the document that it names,
/// where it can be found, or for all.
pub open spec fn active_after_choice(
    ctx: InitActionContext,
    params: ChangeActiveContextsParams,
) -> Set<ContextKey> {
    let chosen = devices_named(params.active_contexts@);
    match params.uri {
        None => chosen,
        Some(uri) => match uri.canon_path {
            Some(path) => contexts_chosen(
                ctx.analysis,
                ctx.device_active_contexts@,
                path.key(),
                chosen,
            ),
            None => ctx.device_active_contexts@,
        },
    }
}

/// The devices among the contexts that can be found.
fn collect_devices(contexts: &Vec<ContextDefinitionKindParam>) -> (devices: VecSet<
    ContextDefinition,
>)
    ensures
        devices@ == devices_named(contexts@),
        devices.marks() == device_marks(contexts@),
{
    let mut devices: VecSet<ContextDefinition> = VecSet::new();
    let mut i: usize = 0;
    assert(devices@ =~= devices_named(contexts@.take(0)));
    while i < contexts.len()
        invariant
            i <= contexts@.len(),
            devices@ == devices_named(contexts@.take(i as int)),
            devices.marks() == device_marks(contexts@.take(i as int)),
        decreases contexts@.len() - i,
    {
        let ghost before = devices@;
        let ghost was = contexts@.take(i as int);
        let ghost now = contexts@.take(i as int + 1);
        assert(now.drop_last() =~= was);
        assert(now.last() == contexts@[i as int]);
        if let Some(context) = contexts[i].to_context_def() {
            let is_device = match &context {
                ContextDefinition::Device(_) => true,
                ContextDefinition::Simulated(_) => false,
            };
            if is_device {
                let _ = devices.insert(context);
            }
        }
        proof {
            let new = contexts@[i as int].context_key();
            assert(now =~= was.push(contexts@[i as int]));
            assert forall|c: ContextKey| devices@.contains(c) <==> devices_named(now).contains(
                c,
            ) by {
                if devices_named(was).contains(c) {
                    let j = choose|j: int|
                        0 <= j < was.len() && (#[trigger] was[j]).context_key() == Some(c);
                    assert(now[j].context_key() == Some(c));
                }
                if new == Some(c) {
                    assert(now[i as int].context_key() == Some(c));
                }
                if devices_named(now).contains(c) && new != Some(c) {
                    let j = choose|j: int|
                        0 <= j < now.len() && (#[trigger] now[j]).context_key() == Some(c);
                    assert(was[j].context_key() == Some(c));
                }
            }
            assert(devices@ =~= devices_named(now));
        }
        i += 1;
    }
    assert(contexts@.take(i as int) =~= contexts@);
    devices
}

/// How a choice of contexts changes what the server keeps.
pub open spec fn choice_taken(
    before: InitActionContext,
    after: InitActionContext,
    params: ChangeActiveContextsParams,
) -> bool {
    &&& after == (InitActionContext {
        device_active_contexts: after.device_active_contexts,
        ..before
    })
    &&& after.device_active_contexts@ == active_after_choice(before, params)
    &&& after.device_active_contexts.marks() == active_marks_after_choice(before, params)
}

impl ChangeActiveContexts {
    /// Takes the choice over, as far as it is one of devices that can be found,
    /// and has errors reported anew, since what is reported may have changed.
    pub fn handle(
        params: &ChangeActiveContextsParams,
        ctx: &mut InitActionContext,
        out: &mut Outbox,
    ) -> (result: Result<(), ResponseError>)
        ensures
            result == Ok::<(), ResponseError>(()),
            choice_taken(*old(ctx), *final(ctx), *params),
            final(out)@ == old(out)@.push(EffectView::ReportErrors),
    {
        let devices = collect_devices(&params.active_contexts);
        match &params.uri {
            Some(uri) => match &uri.canon_path {
                Some(path) => {
                    ctx.update_contexts(path, &devices);
                },
                None => {},
            },
            None => {
                ctx.device_active_contexts = devices;
            },
        }
        out.push(Effect::ReportErrors);
        Ok(())
    }
}

/// A notification with what came along. Where it takes more than the message
/// itself to handle it, that is here too: ids for requests that may have to be
/// sent, and what the files hold that the configuration names.
#[allow(inconsistent_fields)]
pub enum NotificationParams {
    Initialized { config_id: RequestId, watch_id: RequestId },
    DidOpenTextDocument { file: Option<FileRef>, text: String },
    DidCloseTextDocument { file: Option<FileRef> },
    DidChangeTextDocument {
        file: Option<FileRef>,
        version: i32,
        content_changes: Vec<ContentChange>,
    },
    DidSaveTextDocument { file: Option<FilePath> },
    DidChangeConfiguration { settings: ConfigSettings, files: ConfigFiles, id: RequestId },
    DidChangeWatchedFiles { changes: Vec<FileEvent>, files: ConfigFiles },
    DidChangeWorkspaceFolders { added: Vec<Workspace>, removed: Vec<Workspace> },
    Cancel,
    ChangeActiveContexts { params: ChangeActiveContextsParams },
}

impl NotificationParams {
    /// The method that the notification belongs to.
    pub open spec fn method(&self) -> NotificationMethod {
        match self {
            NotificationParams::Initialized { .. } => NotificationMethod::Initialized,
            NotificationParams::DidOpenTextDocument { .. } => {
                NotificationMethod::DidOpenTextDocument
            },
            NotificationParams::DidCloseTextDocument { .. } => {
                NotificationMethod::DidCloseTextDocument
            },
            NotificationParams::DidChangeTextDocument { .. } => {
                NotificationMethod::DidChangeTextDocument
            },
            NotificationParams::DidSaveTextDocument { .. } => {
                NotificationMethod::DidSaveTextDocument
            },
            NotificationParams::DidChangeConfiguration { .. } => {
                NotificationMethod::DidChangeConfiguration
            },
            NotificationParams::DidChangeWatchedFiles { .. } => {
                NotificationMethod::DidChangeWatchedFiles
            },
            NotificationParams::DidChangeWorkspaceFolders { .. } => {
                NotificationMethod::DidChangeWorkspaceFolders
            },
            NotificationParams::Cancel => NotificationMethod::Cancel,
            NotificationParams::ChangeActiveContexts { .. } => {
                NotificationMethod::ChangeActiveContexts
            },
        }
    }

    /// What the notification sets off. `after` is what the server keeps
    /// afterwards.
    pub open spec fn effects(&self, ctx: InitActionContext, after: InitActionContext) -> Seq<
        EffectView,
    > {
        match self {
            NotificationParams::Initialized { config_id, watch_id } => initialized_effects(
                ctx,
                config_id@,
                watch_id@,
            ),
            NotificationParams::DidOpenTextDocument { file, text } => open_effects(
                ctx,
                *file,
                text@,
            ),
            NotificationParams::DidCloseTextDocument { file } => close_effects(*file),
            NotificationParams::DidChangeTextDocument { file, version, content_changes } => {
                change_effects(ctx, *file, *version, content_changes@)
            },
            NotificationParams::DidSaveTextDocument { file } => save_effects(ctx, *file),
            NotificationParams::DidChangeConfiguration { settings, files, id } => {
                configuration_effects(ctx, *settings, *files, id@, after.compilation_info)
            },
            NotificationParams::DidChangeWatchedFiles { changes, files } => watched_effects(
                ctx,
                changes@,
                *files,
                after.compilation_info,
            ),
            NotificationParams::DidChangeWorkspaceFolders { added, removed } => Seq::empty(),
            NotificationParams::Cancel => Seq::empty(),
            NotificationParams::ChangeActiveContexts { params } => seq![EffectView::ReportErrors],
        }
    }

    /// Whether the notification changes what the server keeps from `before` to
    /// `after`.
    pub open spec fn taken(&self, before: InitActionContext, after: InitActionContext) -> bool {
        match self {
            NotificationParams::Initialized { config_id, watch_id } => initialized_taken(
                before,
                after,
                config_id@,
                watch_id@,
            ),
            NotificationParams::DidOpenTextDocument { file, text } => opened(before, after, *file),
            NotificationParams::DidCloseTextDocument { file } => closed(before, after, *file),
            NotificationParams::DidChangeTextDocument { file, version, content_changes } => {
                changed(before, after, *file, *version, content_changes@)
            },
            NotificationParams::DidSaveTextDocument { file } => after == before,
            NotificationParams::DidChangeConfiguration { settings, files, id } => {
                configuration_taken(before, after, *settings, *files, id@)
            },
            NotificationParams::DidChangeWatchedFiles { changes, files } => watched_taken(
                before,
                after,
                changes@,
                *files,
            ),
            NotificationParams::DidChangeWorkspaceFolders { added, removed } => folders_taken(
                before,
                after,
                added@,
                removed@,
            ),
            NotificationParams::Cancel => after == before,
            NotificationParams::ChangeActiveContexts { params } => choice_taken(
                before,
                after,
                *params,
            ),
        }
    }

    /// Whether the notification can be handled only if the roots of all
    /// workspaces are paths.
    pub open spec fn needs_roots(&self, ctx: InitActionContext) -> bool {
        match self {
            NotificationParams::DidChangeConfiguration { settings, files, id } => {
                configuration_needs_roots(ctx, *settings, *files)
            },
            NotificationParams::DidChangeWatchedFiles { changes, files } => watched_needs_roots(
                ctx,
                changes@,
                *files,
            ),
            _ => false,
        }
    }

    /// What handling the notification comes to.
    pub open spec fn result(&self) -> Result<(), ResponseError> {
        match self {
            NotificationParams::DidOpenTextDocument { file, text } => file_result(*file is Some),
            NotificationParams::DidCloseTextDocument { file } => file_result(*file is Some),
            NotificationParams::DidChangeTextDocument { file, version, content_changes } => {
                file_result(content_changes@.len() == 0 || *file is Some)
            },
            NotificationParams::DidSaveTextDocument { file } => file_result(*file is Some),
            NotificationParams::DidChangeConfiguration { settings, files, id } => file_result(
                asks_to_pull(settings.shape) || settings.config is Ok,
            ),
            _ => Ok(()),
        }
    }

    /// Handles the notification.
    pub fn dispatch(self, ctx: &mut InitActionContext, out: &mut Outbox) -> (result: Result<
        (),
        ResponseError,
    >)
        requires
            self.needs_roots(*old(ctx)) ==> roots_are_paths(old(ctx).workspace_roots@),
        ensures
            result == self.result(),
            self.taken(*old(ctx), *final(ctx)),
            final(out)@ == old(out)@ + self.effects(*old(ctx), *final(ctx)),
    {
        match self {
            NotificationParams::Initialized { config_id, watch_id } => Initialized::handle(
                config_id,
                watch_id,
                ctx,
                out,
            ),
            NotificationParams::DidOpenTextDocument { file, text } => {
                DidOpenTextDocument::handle(&file, text.as_str(), ctx, out)
            },
            NotificationParams::DidCloseTextDocument { file } => DidCloseTextDocument::handle(
                &file,
                ctx,
                out,
            ),
            NotificationParams::DidChangeTextDocument { file, version, content_changes } => {
                DidChangeTextDocument::handle(&file, version, &content_changes, ctx, out)
            },
            NotificationParams::DidSaveTextDocument { file } => DidSaveTextDocument::handle(
                &file,
                ctx,
                out,
            ),
            NotificationParams::DidChangeConfiguration { settings, files, id } => {
                DidChangeConfiguration::handle(settings, &files, id, ctx, out)
            },
            NotificationParams::DidChangeWatchedFiles { changes, files } => {
                DidChangeWatchedFiles::handle(&changes, &files, ctx, out)
            },
            NotificationParams::DidChangeWorkspaceFolders { added, removed } => {
                let result = DidChangeWorkspaceFolders::handle(added, &removed, ctx);
                assert(out@ =~= old(out)@ + Seq::<EffectView>::empty());
                result
            },
            NotificationParams::Cancel => {
                let result = Cancel::handle(ctx, out);
                assert(out@ =~= old(out)@ + Seq::<EffectView>::empty());
                result
            },
            NotificationParams::ChangeActiveContexts { params } => {
                let result = ChangeActiveContexts::handle(&params, ctx, out);
                assert(out@ =~= old(out)@ + seq![EffectView::ReportErrors]);
                result
            },
        }
    }
}

} // verus!
