//! How devices are compiled, and where their files are looked for.
use crate::actions::analysis::PathKey;
use crate::actions::context::{
    include_views, includes_of, CompilationInfo, CompilationInfoStorage, InitActionContext,
    Workspace,
};
use crate::collections::{add_marks, keys_of, marks_of, Keyed, VecMap, VecSet};
use crate::effects::{
    copy_opt_path, opt_path, path_views, Effect, EffectView, Outbox, PathResolver, ResolverView,
};
use crate::path::{has_extension, lies_under, CanonPath, FilePath, PathView};
use crate::server::message::MessageType;
use crate::server::notify::{
    error_message, message_shown, warning_message, LintCfgReading,
};
use vstd::prelude::*;
use vstd::string::*;

verus! {

/// An entry of the compile information file.
pub struct CompileCommand {
    pub file: FilePath,
    /// Where the file really is, if it can be found.
    pub canon_path: Option<CanonPath>,
    pub includes: Vec<FilePath>,
}

/// What reading the compile information file came to.
pub struct CompileInfoReading {
    /// Where the file really is, if it can be found.
    pub canon_path: Option<CanonPath>,
    /// Its entries, or why it could not be read.
    pub commands: Result<Vec<CompileCommand>, String>,
}

/// What the files hold that the configuration names.
pub struct ConfigFiles {
    pub compile_info: CompileInfoReading,
    pub lint_cfg: LintCfgReading,
}

impl CompileCommand {
    /// Whether the entry says something of this device: it is for a DML file
    /// that is really there.
    pub open spec fn is_for(&self, device: PathKey) -> bool {
        &&& has_extension(self.file.key(), "dml"@)
        &&& self.canon_path matches Some(canon_path) && canon_path.key() == device
    }
}

/// Whether some entry says something of the device.
pub open spec fn has_command(commands: Seq<CompileCommand>, device: PathKey) -> bool {
    exists|i: int| 0 <= i < commands.len() && (#[trigger] commands[i]).is_for(device)
}

/// Whether some entry for the device includes the path.
pub open spec fn includes(commands: Seq<CompileCommand>, device: PathKey, path: PathKey) -> bool {
    exists|i: int|
        0 <= i < commands.len() && (#[trigger] commands[i]).is_for(device) && keys_of(
            commands[i].includes@,
        ).contains(path)
}

/// Where imports are looked for according to the entries, by device: wherever
/// some entry for the device says.
pub open spec fn includes_read(commands: Seq<CompileCommand>) -> Map<PathKey, Set<PathKey>> {
    Map::new(
        |device: PathKey| has_command(commands, device),
        |device: PathKey| Set::new(|path: PathKey| includes(commands, device, path)),
    )
}

/// Whether some entry is for the device that the path says.
pub open spec fn names_device(commands: Seq<CompileCommand>, device: PathView) -> bool {
    exists|i: int|
        0 <= i < commands.len() && (#[trigger] commands[i]).is_for(device.components)
            && commands[i].canon_path->0@ == device
}

/// Whether some entry for the device includes what the path says.
pub open spec fn names_include(
    commands: Seq<CompileCommand>,
    device: PathKey,
    path: PathView,
) -> bool {
    exists|i: int|
        0 <= i < commands.len() && (#[trigger] commands[i]).is_for(device) && path_views(
            commands[i].includes@,
        ).contains(path)
}

/// Whether the information is what the entries say: it is about the devices
/// that some entry is for, and imports are looked for wherever some entry for
/// the device says. Each path is written as in one of these entries. Nothing is
/// defined besides.
pub open spec fn info_read(info: CompilationInfoStorage, commands: Seq<CompileCommand>) -> bool {
    &&& includes_of(info@) == includes_read(commands)
    &&& forall|device: PathKey| #[trigger]
        info@.contains_key(device) ==> info@[device].extra_defines@.len() == 0
    &&& forall|i: int|
        0 <= i < info.entries().len() ==> names_device(
            commands,
            (#[trigger] info.entries()[i]).0@,
        )
    &&& forall|device: PathKey, j: int|
        info@.contains_key(device) && 0 <= j < info@[device].include_paths.views().len()
            ==> names_include(
            commands,
            device,
            #[trigger] info@[device].include_paths.views()[j],
        )
}

/// What an entry says is still said when there are more entries.
proof fn lemma_names_grow(commands: Seq<CompileCommand>, n: int)
    requires
        0 <= n < commands.len(),
    ensures
        forall|device: PathView|
            names_device(commands.take(n), device) ==> names_device(
                commands.take(n + 1),
                device,
            ),
        forall|device: PathKey, path: PathView|
            names_include(commands.take(n), device, path) ==> names_include(
                commands.take(n + 1),
                device,
                path,
            ),
{
    let before = commands.take(n);
    let now = commands.take(n + 1);
    assert forall|device: PathView| names_device(before, device) implies names_device(
        now,
        device,
    ) by {
        let i = choose|i: int|
            0 <= i < before.len() && (#[trigger] before[i]).is_for(device.components)
                && before[i].canon_path->0@ == device;
        assert(now[i] == before[i]);
        assert(now[i].is_for(device.components));
    }
    assert forall|device: PathKey, path: PathView| names_include(
        before,
        device,
        path,
    ) implies names_include(now, device, path) by {
        let i = choose|i: int|
            0 <= i < before.len() && (#[trigger] before[i]).is_for(device) && path_views(
                before[i].includes@,
            ).contains(path);
        assert(now[i] == before[i]);
        assert(now[i].is_for(device));
    }
}

/// What the members of a set say after more were added was said by one of the
/// members or by one of those added.
proof fn lemma_added_views(before: Seq<(PathKey, PathView)>, more: Seq<(PathKey, PathView)>, i: int)
    requires
        0 <= i < add_marks(before, more).len(),
    ensures
        before.contains(add_marks(before, more)[i]) || more.contains(add_marks(before, more)[i]),
    decreases more.len(),
{
    let all = add_marks(before, more);
    if more.len() == 0 {
        assert(all == before);
    } else {
        let part = add_marks(before, more.drop_last());
        if i < part.len() {
            lemma_added_views(before, more.drop_last(), i);
            assert(all[i] == part[i]);
            if more.drop_last().contains(part[i]) {
                let j = choose|j: int|
                    0 <= j < more.drop_last().len() && more.drop_last()[j] == part[i];
                assert(more[j] == part[i]);
            }
        } else {
            assert(all[i] == more[more.len() - 1]);
        }
    }
}

/// One more entry.
proof fn lemma_one_more_command(commands: Seq<CompileCommand>, n: int)
    requires
        0 <= n < commands.len(),
    ensures
        forall|device: PathKey|
            has_command(commands.take(n + 1), device) <==> has_command(commands.take(n), device)
                || commands[n].is_for(device),
        forall|device: PathKey, path: PathKey|
            includes(commands.take(n + 1), device, path) <==> includes(
                commands.take(n),
                device,
                path,
            ) || (commands[n].is_for(device) && keys_of(commands[n].includes@).contains(path)),
{
    let now = commands.take(n + 1);
    let before = commands.take(n);
    assert(now =~= before.push(commands[n]));
    assert(now[n] == commands[n]);
    assert forall|device: PathKey|
        has_command(now, device) <==> has_command(before, device) || commands[n].is_for(
            device,
        ) by {
        if has_command(before, device) {
            let i = choose|i: int| 0 <= i < before.len() && (#[trigger] before[i]).is_for(device);
            assert(now[i].is_for(device));
        }
        if commands[n].is_for(device) {
            assert(now[n].is_for(device));
        }
        if has_command(now, device) && !commands[n].is_for(device) {
            let i = choose|i: int| 0 <= i < now.len() && (#[trigger] now[i]).is_for(device);
            assert(before[i].is_for(device));
        }
    }
    assert forall|device: PathKey, path: PathKey|
        includes(now, device, path) <==> includes(before, device, path) || (commands[n].is_for(
            device,
        ) && keys_of(commands[n].includes@).contains(path)) by {
        if includes(before, device, path) {
            let i = choose|i: int|
                0 <= i < before.len() && (#[trigger] before[i]).is_for(device) && keys_of(
                    before[i].includes@,
                ).contains(path);
            assert(now[i].is_for(device));
        }
        if commands[n].is_for(device) && keys_of(commands[n].includes@).contains(path) {
            assert(now[n].is_for(device));
        }
        if includes(now, device, path) {
            let i = choose|i: int|
                0 <= i < now.len() && (#[trigger] now[i]).is_for(device) && keys_of(
                    now[i].includes@,
                ).contains(path);
            if i < n {
                assert(before[i].is_for(device));
            }
        }
    }
}

/// The roots of the workspaces.
pub open spec fn root_paths(roots: Seq<Workspace>) -> Seq<PathView> {
    roots.map_values(|w: Workspace| w.path->0@)
}

/// Whether the roots of all workspaces are paths.
pub open spec fn roots_are_paths(roots: Seq<Workspace>) -> bool {
    forall|i: int| 0 <= i < roots.len() ==> (#[trigger] roots[i]).path is Some
}

/// Whether the workspace is one of those named.
pub open spec fn is_among(w: Workspace, named: Seq<Workspace>) -> bool {
    exists|i: int|
        0 <= i < named.len() && (#[trigger] named[i]).uri@ == w.uri@ && named[i].name@ == w.name@
}

/// Where files are looked for.
pub open spec fn resolver_of(
    root: Option<FilePath>,
    roots: Seq<Workspace>,
    info: CompilationInfoStorage,
) -> ResolverView {
    ResolverView {
        root: opt_path(root),
        paths: root_paths(roots),
        include_paths: include_views(info),
    }
}

/// Whether a file lies in a folder that the client works in.
pub open spec fn under_some_root(file: PathKey, roots: Seq<Workspace>) -> bool {
    exists|i: int|
        0 <= i < roots.len() && ((#[trigger] roots[i]).path matches Some(root) && lies_under(
            file,
            root.key(),
        ))
}

/// Whether the user is warned about where the compile information file is: it
/// is there, and lies in none of the folders that the client works in.
pub open spec fn place_warned(canon_path: Option<CanonPath>, roots: Seq<Workspace>) -> bool {
    canon_path matches Some(file) && roots.len() > 0 && !under_some_root(file.key(), roots)
}

/// The warning about where the compile information file is.
pub open spec fn place_warning() -> EffectView {
    message_shown(
        MessageType::Warning,
        "Compilation info file is not under any workspace root, might be configured for a different workspace."@,
    )
}

/// What taking a compile information file over sets off, given the client's
/// root and the folders that the client works in. `info` is what is known
/// afterwards.
pub open spec fn compile_info_effects_in(
    root: Option<FilePath>,
    roots: Seq<Workspace>,
    reading: CompileInfoReading,
    info: CompilationInfoStorage,
) -> Seq<EffectView> {
    (if place_warned(reading.canon_path, roots) {
        seq![place_warning()]
    } else {
        Seq::empty()
    }) + (match reading.commands {
        Ok(commands) => seq![
            EffectView::UpdateContextDependencies {
                resolver: resolver_of(root, roots, info),
            },
        ],
        Err(e) => seq![
            message_shown(MessageType::Error, "Could not update compilation info: "@ + e@),
        ],
    })
}

/// What taking the compile information file over sets off, where one is
/// configured. `info` is what is known afterwards.
pub open spec fn compile_info_effects(
    ctx: InitActionContext,
    reading: CompileInfoReading,
    info: CompilationInfoStorage,
) -> Seq<EffectView> {
    if ctx.config.compile_info_path is None {
        Seq::empty()
    } else {
        compile_info_effects_in(
            ctx.client_capabilities.root,
            ctx.workspace_roots@,
            reading,
            info,
        )
    }
}

/// Whether `info` is what is known after the compile information file has been
/// taken over: what it says, or what was known before where it is not
/// configured or cannot be read.
pub open spec fn compile_info_taken_over(
    ctx: InitActionContext,
    reading: CompileInfoReading,
    info: CompilationInfoStorage,
) -> bool {
    match (ctx.config.compile_info_path, reading.commands) {
        (Some(_), Ok(commands)) => info_read(info, commands@),
        _ => info == ctx.compilation_info,
    }
}

/// Whether taking the compile information file over needs the roots of the
/// workspaces.
pub open spec fn compile_info_needs_roots(
    ctx: InitActionContext,
    reading: CompileInfoReading,
) -> bool {
    ctx.config.compile_info_path is Some && reading.commands is Ok
}

/// Compiles the entries of the compile information file.
pub fn compilation_info_from(commands: &Vec<CompileCommand>) -> (info: CompilationInfoStorage)
    ensures
        info_read(info, commands@),
{
    let mut info: CompilationInfoStorage = VecMap::new();
    let mut i: usize = 0;
    assert(includes_of(info@) =~= includes_read(commands@.take(0)));
    while i < commands.len()
        invariant
            i <= commands@.len(),
            info_read(info, commands@.take(i as int)),
        decreases commands@.len() - i,
    {
        let command = &commands[i];
        let ghost before = info@;
        let ghost listed = info.entries();
        let ghost was = commands@.take(i as int);
        let ghost now_all = commands@.take(i as int + 1);
        proof {
            lemma_one_more_command(commands@, i as int);
            lemma_names_grow(commands@, i as int);
        }
        if command.file.extension_is("dml") {
            if let Some(canon_path) = &command.canon_path {
                let mut entry = match info.remove(canon_path) {
                    Some(entry) => entry,
                    None => CompilationInfo {
                        extra_defines: Vec::new(),
                        include_paths: VecSet::new(),
                    },
                };
                let ghost had = entry.include_paths@;
                let ghost had_marks = entry.include_paths.marks();
                let ghost had_views = entry.include_paths.views();
                entry.include_paths.add_all(&command.includes);
                let ghost now = entry;
                proof {
                    let k = canon_path.key();
                    let more = marks_of(command.includes@);
                    let set = now.include_paths;
                    assert(now_all[i as int] == *command);
                    assert(now_all[i as int].is_for(k));
                    assert forall|j: int| 0 <= j < set.views().len() implies names_include(
                        now_all,
                        k,
                        #[trigger] set.views()[j],
                    ) by {
                        let mark = set.marks()[j];
                        assert(mark.1 == set.views()[j]);
                        lemma_added_views(had_marks, more, j);
                        if had_marks.contains(mark) {
                            let h = choose|h: int|
                                0 <= h < had_marks.len() && had_marks[h] == mark;
                            assert(had_views[h] == mark.1);
                            assert(before.contains_key(k));
                            assert(before[k].include_paths.views()[h] == mark.1);
                            assert(names_include(was, k, mark.1));
                        } else {
                            let h = choose|h: int| 0 <= h < more.len() && more[h] == mark;
                            assert(path_views(command.includes@)[h] == mark.1);
                        }
                    }
                    assert(names_device(now_all, canon_path@));
                }
                let ghost rest = info.entries();
                let _ = info.insert(canon_path.duplicate(), entry);
                proof {
                    let k = canon_path.key();
                    assert(info@ =~= before.insert(k, now));
                    assert(includes_read(commands@.take(i as int)).contains_key(k)
                        == before.contains_key(k)) by {
                        assert(includes_of(before).contains_key(k) == before.contains_key(k));
                    }
                    if before.contains_key(k) {
                        assert(includes_of(before)[k] == had);
                    }
                    assert forall|device: PathKey|
                        device != k implies !command.is_for(device) by {}
                    assert forall|path: PathKey|
                        now.include_paths@.contains(path) <==> includes(
                            commands@.take(i as int + 1),
                            k,
                            path,
                        ) by {
                        if before.contains_key(k) {
                            assert(had.contains(path) <==> includes(
                                commands@.take(i as int),
                                k,
                                path,
                            ));
                        } else {
                            if includes(commands@.take(i as int), k, path) {
                                let all = commands@.take(i as int);
                                let j = choose|j: int|
                                    0 <= j < all.len() && (#[trigger] all[j]).is_for(k)
                                        && keys_of(all[j].includes@).contains(path);
                                assert(has_command(all, k));
                            }
                        }
                    }
                }
            }
        }
        proof {
            let all = commands@.take(i as int + 1);
            assert forall|device: PathKey| #[trigger]
                info@.contains_key(device) <==> before.contains_key(device) || command.is_for(
                    device,
                ) by {}
            assert forall|j: int| 0 <= j < info.entries().len() implies names_device(
                all,
                (#[trigger] info.entries()[j]).0@,
            ) by {
                if exists|h: int| 0 <= h < listed.len() && listed[h].0@ == info.entries()[j].0@ {
                    let h = choose|h: int|
                        0 <= h < listed.len() && listed[h].0@ == info.entries()[j].0@;
                    assert(names_device(was, listed[h].0@));
                }
            }
            assert(includes_of(info@) =~= includes_read(all)) by {
                assert forall|device: PathKey| #[trigger]
                    includes_of(info@).contains_key(device) implies includes_of(info@)[device]
                    =~= includes_read(all)[device] by {
                    if !commands@[i as int].is_for(device) {
                        assert(includes_of(before).contains_key(device));
                        assert(includes_of(before)[device] == includes_read(
                            commands@.take(i as int),
                        )[device]);
                        assert forall|path: PathKey|
                            includes_of(info@)[device].contains(path) <==> includes_read(
                                all,
                            )[device].contains(path) by {
                            assert(includes_of(before)[device].contains(path) <==> includes(
                                commands@.take(i as int),
                                device,
                                path,
                            ));
                        }
                    }
                }
                assert forall|device: PathKey|
                    includes_of(info@).contains_key(device) <==> includes_read(all).contains_key(
                        device,
                    ) by {
                    assert(includes_of(before).contains_key(device) <==> has_command(
                        commands@.take(i as int),
                        device,
                    ));
                    assert(info@.contains_key(device) <==> before.contains_key(device)
                        || commands@[i as int].is_for(device));
                    assert(includes_read(all).contains_key(device) <==> has_command(all, device));
                }
            }
        }
        i += 1;
    }
    assert(commands@.take(i as int) =~= commands@);
    info
}

impl InitActionContext {
    /// Compiles the compile information file, where it could be read.
    pub fn compilation_info_from_file(
        &self,
        commands: &Result<Vec<CompileCommand>, String>,
    ) -> (result: Result<CompilationInfoStorage, String>)
        ensures
            match (*commands, result) {
                (Ok(c), Ok(info)) => info_read(info, c@),
                (Err(e), Err(f)) => f@ == e@,
                _ => false,
            },
    {
        match commands {
            Ok(commands) => Ok(compilation_info_from(commands)),
            Err(e) => Err(e.clone()),
        }
    }

    /// Takes the folders to be removed out and puts the new ones behind the
    /// others.
    pub fn update_workspaces(&mut self, add: Vec<Workspace>, remove: &Vec<Workspace>)
        ensures
            *final(self) == (InitActionContext {
                workspace_roots: final(self).workspace_roots,
                ..*old(self)
            }),
            final(self).workspace_roots@ == old(self).workspace_roots@.filter(
                |w: Workspace| !is_among(w, remove@),
            ) + add@,
    {
        let ghost all = self.workspace_roots@;
        let ghost p = |w: Workspace| !is_among(w, remove@);
        let mut kept: Vec<Workspace> = Vec::new();
        let mut rest: Vec<Workspace> = Vec::new();
        std::mem::swap(&mut rest, &mut self.workspace_roots);
        let ghost mut done: int = 0;
        proof {
            reveal(Seq::filter);
            assert(all.skip(0) =~= all);
            assert(all.take(0).filter(p) =~= Seq::<Workspace>::empty());
        }
        while rest.len() > 0
            invariant
                0 <= done <= all.len(),
                rest@ == all.skip(done),
                p == (|w: Workspace| !is_among(w, remove@)),
                kept@ == all.take(done).filter(p),
            decreases rest@.len(),
        {
            let workspace = rest.remove(0);
            proof {
                reveal(Seq::filter);
                assert(workspace == all[done]);
                assert(all.take(done + 1).drop_last() =~= all.take(done));
                assert(all.take(done + 1).last() == all[done]);
                assert(rest@ =~= all.skip(done + 1));
                done = done + 1;
            }
            if !among(&workspace, remove) {
                kept.push(workspace);
            }
        }
        assert(all.take(done) =~= all);
        let mut add = add;
        kept.append(&mut add);
        self.workspace_roots = kept;
    }

    /// Where files are looked for: under the client's root, under the roots of
    /// the workspaces, and where the compile information says.
    pub fn construct_resolver(&self) -> (resolver: PathResolver)
        requires
            roots_are_paths(self.workspace_roots@),
        ensures
            resolver@ == resolver_of(
                self.client_capabilities.root,
                self.workspace_roots@,
                self.compilation_info,
            ),
    {
        let mut paths: Vec<FilePath> = Vec::new();
        let mut i: usize = 0;
        while i < self.workspace_roots.len()
            invariant
                i <= self.workspace_roots@.len(),
                roots_are_paths(self.workspace_roots@),
                paths@.len() == i,
                forall|j: int|
                    0 <= j < i ==> (#[trigger] paths@[j])@ == self.workspace_roots@[j].path->0@,
            decreases self.workspace_roots@.len() - i,
        {
            assert(self.workspace_roots@[i as int].path is Some);
            if let Some(path) = &self.workspace_roots[i].path {
                paths.push(path.duplicate());
            }
            i += 1;
        }
        assert(path_views(paths@) =~= root_paths(self.workspace_roots@));
        let include_paths = copy_includes(&self.compilation_info);
        PathResolver {
            root: copy_opt_path(&self.client_capabilities.root),
            paths,
            include_paths,
        }
    }

    /// Takes the compile information file over that the configuration names.
    pub fn update_compilation_info(&mut self, reading: &CompileInfoReading, out: &mut Outbox)
        requires
            compile_info_needs_roots(*old(self), *reading) ==> roots_are_paths(
                old(self).workspace_roots@,
            ),
        ensures
            *final(self) == (InitActionContext {
                compilation_info: final(self).compilation_info,
                ..*old(self)
            }),
            compile_info_taken_over(*old(self), *reading, final(self).compilation_info),
            final(out)@ == old(out)@ + compile_info_effects(
                *old(self),
                *reading,
                final(self).compilation_info,
            ),
    {
        let ghost before = out@;
        if self.config.compile_info_path.is_none() {
            assert(out@ =~= before + Seq::<EffectView>::empty());
            return;
        }
        let ghost warned = place_warned(reading.canon_path, self.workspace_roots@);
        if let Some(canon_path) = &reading.canon_path {
            if self.workspace_roots.len() > 0 && !self.lies_under_a_root(canon_path) {
                warning_message(
                    out,
                    "Compilation info file is not under any workspace root, might be configured for a different workspace.".to_owned(),
                );
            }
        }
        let ghost first = if warned {
            seq![place_warning()]
        } else {
            Seq::empty()
        };
        assert(out@ =~= before + first);
        match self.compilation_info_from_file(&reading.commands) {
            Ok(info) => {
                self.compilation_info = info;
                let resolver = self.construct_resolver();
                out.push(Effect::UpdateContextDependencies { resolver });
            },
            Err(e) => {
                let mut message = "Could not update compilation info: ".to_owned();
                message.append(e.as_str());
                error_message(out, message);
            },
        }
        assert(out@ =~= before + compile_info_effects(
            *old(self),
            *reading,
            self.compilation_info,
        ));
    }

    /// Whether a file lies in a folder that the client works in.
    fn lies_under_a_root(&self, file: &CanonPath) -> (b: bool)
        ensures
            b == under_some_root(file.key(), self.workspace_roots@),
    {
        let mut i: usize = 0;
        while i < self.workspace_roots.len()
            invariant
                i <= self.workspace_roots@.len(),
                forall|j: int|
                    0 <= j < i ==> !((#[trigger] self.workspace_roots@[j]).path matches Some(root)
                        && lies_under(file.key(), root.key())),
            decreases self.workspace_roots@.len() - i,
        {
            let here = match &self.workspace_roots[i].path {
                Some(root) => file.starts_with(root),
                None => false,
            };
            if here {
                assert(self.workspace_roots@[i as int].path is Some);
                return true;
            }
            i += 1;
        }
        false
    }

    /// Has the stored analyses brought up to date.
    pub fn update_analysis(&self, out: &mut Outbox)
        requires
            roots_are_paths(self.workspace_roots@),
        ensures
            final(out)@ == old(out)@.push(
                EffectView::UpdateAnalysis {
                    resolver: resolver_of(
                        self.client_capabilities.root,
                        self.workspace_roots@,
                        self.compilation_info,
                    ),
                },
            ),
    {
        let resolver = self.construct_resolver();
        out.push(Effect::UpdateAnalysis { resolver });
    }
}

/// Whether the workspace is one of those named.
fn among(w: &Workspace, named: &Vec<Workspace>) -> (b: bool)
    ensures
        b == is_among(*w, named@),
{
    let mut i: usize = 0;
    while i < named.len()
        invariant
            i <= named@.len(),
            forall|j: int|
                0 <= j < i ==> !((#[trigger] named@[j]).uri@ == w.uri@ && named@[j].name@
                    == w.name@),
        decreases named@.len() - i,
    {
        if named[i].uri == w.uri && named[i].name == w.name {
            return true;
        }
        i += 1;
    }
    false
}

/// Where imports are looked for, by device.
fn copy_includes(info: &CompilationInfoStorage) -> (copy: VecMap<CanonPath, VecSet<FilePath>>)
    ensures
        copy.entries().map_values(|e: (CanonPath, VecSet<FilePath>)| (e.0@, e.1.views()))
            == include_views(*info),
{
    let mut copy: VecMap<CanonPath, VecSet<FilePath>> = VecMap::new();
    let entries = info.as_vec();
    let mut i: usize = 0;
    while i < entries.len()
        invariant
            i <= entries@.len(),
            entries@ == info.entries(),
            info.keys().no_duplicates(),
            forall|k: PathKey|
                #[trigger] copy@.contains_key(k) <==> exists|j: int|
                    0 <= j < i && (#[trigger] entries@[j]).0.key() == k,
            copy.entries().len() == i,
            forall|j: int|
                0 <= j < i ==> (#[trigger] copy.entries()[j]).0@ == entries@[j].0@
                    && copy.entries()[j].1.views() == entries@[j].1.include_paths.views(),
        decreases entries@.len() - i,
    {
        let ghost before = copy@;
        let ghost new = entries@[i as int].0.key();
        proof {
            assert(info.keys()[i as int] == new);
            if before.contains_key(new) {
                let j = choose|j: int| 0 <= j < i && (#[trigger] entries@[j]).0.key() == new;
                assert(info.keys()[j] == new);
            }
        }
        let paths = entries[i].1.include_paths.copy();
        let _ = copy.insert(entries[i].0.duplicate(), paths);
        proof {
            assert forall|k: PathKey| #[trigger]
                copy@.contains_key(k) <==> exists|j: int|
                    0 <= j < i + 1 && (#[trigger] entries@[j]).0.key() == k by {
                if before.contains_key(k) {
                    let j = choose|j: int| 0 <= j < i && (#[trigger] entries@[j]).0.key() == k;
                    assert(entries@[j].0.key() == k);
                }
                if k == new {
                    assert(entries@[i as int].0.key() == k);
                }
            }
        }
        i += 1;
    }
    assert(copy.entries().map_values(
        |e: (CanonPath, VecSet<FilePath>)| (e.0@, e.1.views()),
    ) =~= include_views(*info));
    copy
}

} // verus!
