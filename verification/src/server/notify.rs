//! Messages to the user.
use crate::effects::{Effect, EffectView, Outbox};
use crate::lint::config::{
    setup_indentation_size, unknown_lint_fields_message, unknown_lint_fields_text,
    with_one_indentation, LintCfg,
};
use crate::server::message::MessageType;
use crate::text::texts;
use vstd::prelude::*;
use vstd::string::*;

verus! {

/// A message of this kind to the user.
pub open spec fn message_shown(typ: MessageType, message: Seq<char>) -> EffectView {
    EffectView::ShowMessage { typ, message }
}

/// Tells the user something.
pub fn info_message(out: &mut Outbox, message: String)
    ensures
        final(out)@ == old(out)@.push(message_shown(MessageType::Info, message@)),
{
    out.show(MessageType::Info, message);
}

/// Warns the user.
pub fn warning_message(out: &mut Outbox, message: String)
    ensures
        final(out)@ == old(out)@.push(message_shown(MessageType::Warning, message@)),
{
    out.show(MessageType::Warning, message);
}

/// Tells the user of an error.
pub fn error_message(out: &mut Outbox, message: String)
    ensures
        final(out)@ == old(out)@.push(message_shown(MessageType::Error, message@)),
{
    out.show(MessageType::Error, message);
}

/// The first `n` keys in back quotes, each with a blank behind it; a blank
/// comes before the first and a comma before each other one.
pub open spec fn quoted_keys(keys: Seq<Seq<char>>, n: int) -> Seq<char>
    decreases n,
{
    if n <= 0 {
        Seq::empty()
    } else {
        quoted_keys(keys, n - 1) + (if n == 1 {
            " "@
        } else {
            ","@
        }) + "`"@ + keys[n - 1] + "` "@
    }
}

/// What is to be done about configuration keys that nothing knows: they are
/// logged, all in one line.
pub open spec fn unknown_configs_logged(keys: Seq<Seq<char>>) -> Seq<EffectView> {
    if keys.len() == 0 {
        Seq::empty()
    } else {
        seq![
            EffectView::LogWarning {
                message: "Unknown DLS configuration:"@ + quoted_keys(keys, keys.len() as int),
            },
        ]
    }
}

/// Logs the configuration keys that nothing knows, where there are any.
pub fn maybe_notify_unknown_configs(out: &mut Outbox, unknowns: &Vec<String>)
    ensures
        final(out)@ == old(out)@ + unknown_configs_logged(texts(unknowns@)),
{
    if unknowns.len() == 0 {
        assert(out@ =~= old(out)@ + Seq::<EffectView>::empty());
        return;
    }
    let ghost keys = texts(unknowns@);
    let mut message = "Unknown DLS configuration:".to_owned();
    let mut i: usize = 0;
    assert(message@ =~= "Unknown DLS configuration:"@ + quoted_keys(keys, 0));
    while i < unknowns.len()
        invariant
            i <= unknowns@.len(),
            keys == texts(unknowns@),
            message@ == "Unknown DLS configuration:"@ + quoted_keys(keys, i as int),
        decreases unknowns@.len() - i,
    {
        if i == 0 {
            message.append(" ");
        } else {
            message.append(",");
        }
        message.append("`");
        message.append(unknowns[i].as_str());
        message.append("` ");
        i += 1;
        assert(message@ =~= "Unknown DLS configuration:"@ + quoted_keys(keys, i as int));
    }
    out.push(Effect::LogWarning { message });
    assert(out@ =~= old(out)@ + unknown_configs_logged(keys));
}

/// A configuration key that is deprecated, with a notice where there is one.
pub struct DeprecatedKey {
    pub key: String,
    pub notice: Option<String>,
}

/// The warning about a deprecated key.
pub open spec fn deprecation_message(key: DeprecatedKey) -> Seq<char> {
    "DLS configuration option `"@ + key.key@ + "` is deprecated"@ + (match key.notice {
        Some(notice) => ": "@ + notice@,
        None => Seq::empty(),
    })
}

/// What is to be done about deprecated keys: the user is warned of each, in
/// order.
pub open spec fn deprecations_shown(keys: Seq<DeprecatedKey>) -> Seq<EffectView> {
    keys.map_values(
        |k: DeprecatedKey| message_shown(MessageType::Warning, deprecation_message(k)),
    )
}

/// Warns the user of each deprecated configuration key.
pub fn maybe_notify_deprecated_configs(out: &mut Outbox, keys: &Vec<DeprecatedKey>)
    ensures
        final(out)@ == old(out)@ + deprecations_shown(keys@),
{
    let ghost before = out@;
    let ghost all = deprecations_shown(keys@);
    let mut i: usize = 0;
    assert(out@ =~= before + all.take(0));
    while i < keys.len()
        invariant
            i <= keys@.len(),
            all == deprecations_shown(keys@),
            out@ == before + all.take(i as int),
        decreases keys@.len() - i,
    {
        let mut message = "DLS configuration option `".to_owned();
        message.append(keys[i].key.as_str());
        message.append("` is deprecated");
        if let Some(notice) = &keys[i].notice {
            message.append(": ");
            message.append(notice.as_str());
        }
        assert(message@ =~= deprecation_message(keys@[i as int]));
        warning_message(out, message);
        assert(all.take(i as int + 1) =~= all.take(i as int).push(all[i as int]));
        assert(out@ =~= before + all.take(i as int + 1));
        i += 1;
    }
    assert(all.take(i as int) =~= all);
}

/// What is to be done about fields of the lint configuration that nothing
/// knows: the user gets one error message.
pub open spec fn unknown_lint_fields_shown(unknowns: Seq<Seq<char>>) -> Seq<EffectView> {
    if unknowns.len() == 0 {
        Seq::empty()
    } else {
        seq![message_shown(MessageType::Error, unknown_lint_fields_message(unknowns))]
    }
}

/// Tells the user of fields of the lint configuration that nothing knows,
/// where there are any.
pub fn maybe_notify_unknown_lint_fields(out: &mut Outbox, unknowns: &Vec<String>)
    ensures
        final(out)@ == old(out)@ + unknown_lint_fields_shown(texts(unknowns@)),
{
    if unknowns.len() > 0 {
        error_message(out, unknown_lint_fields_text(unknowns));
    }
    assert(out@ =~= old(out)@ + unknown_lint_fields_shown(texts(unknowns@)));
}

/// A configuration key that was given more than once, with the ways in which
/// it was written.
pub struct DuplicatedKey {
    pub key: String,
    pub spellings: Vec<String>,
}

/// The first `n` spellings, each followed by a comma and a blank; a blank
/// comes before the first and a comma before each other one.
pub open spec fn spelled(spellings: Seq<Seq<char>>, n: int) -> Seq<char>
    decreases n,
{
    if n <= 0 {
        Seq::empty()
    } else {
        spelled(spellings, n - 1) + (if n == 1 {
            " "@
        } else {
            ","@
        }) + spellings[n - 1] + ", "@
    }
}

/// The first `n` duplicated keys with their spellings.
pub open spec fn duplicates_listed(dups: Seq<DuplicatedKey>, n: int) -> Seq<char>
    decreases n,
{
    if n <= 0 {
        Seq::empty()
    } else {
        let dup = dups[n - 1];
        let spellings = texts(dup.spellings@);
        duplicates_listed(dups, n - 1) + dup.key@ + ":"@ + spelled(
            spellings,
            spellings.len() as int,
        ) + "; "@
    }
}

/// What is to be done about duplicated keys: the user gets one warning.
pub open spec fn duplicates_shown(dups: Seq<DuplicatedKey>) -> Seq<EffectView> {
    if dups.len() == 0 {
        Seq::empty()
    } else {
        seq![
            message_shown(
                MessageType::Warning,
                "Duplicated DLS configuration: "@ + duplicates_listed(dups, dups.len() as int),
            ),
        ]
    }
}

/// Writes the spellings of a key behind `text`.
fn append_spellings(text: &mut String, spellings: &Vec<String>)
    ensures
        final(text)@ == old(text)@ + spelled(texts(spellings@), spellings@.len() as int),
{
    let ghost before = text@;
    let ghost all = texts(spellings@);
    let mut i: usize = 0;
    assert(text@ =~= before + spelled(all, 0));
    while i < spellings.len()
        invariant
            i <= spellings@.len(),
            all == texts(spellings@),
            text@ == before + spelled(all, i as int),
        decreases spellings@.len() - i,
    {
        if i == 0 {
            text.append(" ");
        } else {
            text.append(",");
        }
        text.append(spellings[i].as_str());
        text.append(", ");
        i += 1;
        assert(text@ =~= before + spelled(all, i as int));
    }
}

/// Warns the user of duplicated configuration keys, where there are any.
pub fn maybe_notify_duplicated_configs(out: &mut Outbox, dups: &Vec<DuplicatedKey>)
    ensures
        final(out)@ == old(out)@ + duplicates_shown(dups@),
{
    if dups.len() == 0 {
        assert(out@ =~= old(out)@ + Seq::<EffectView>::empty());
        return;
    }
    let ghost head = "Duplicated DLS configuration: "@;
    let mut message = "Duplicated DLS configuration: ".to_owned();
    let mut i: usize = 0;
    assert(message@ =~= head + duplicates_listed(dups@, 0));
    while i < dups.len()
        invariant
            i <= dups@.len(),
            message@ == head + duplicates_listed(dups@, i as int),
        decreases dups@.len() - i,
    {
        message.append(dups[i].key.as_str());
        message.append(":");
        append_spellings(&mut message, &dups[i].spellings);
        message.append("; ");
        i += 1;
        assert(message@ =~= head + duplicates_listed(dups@, i as int));
    }
    warning_message(out, message);
    assert(out@ =~= old(out)@ + duplicates_shown(dups@));
}

/// What reading the lint configuration came to: the configuration and the
/// fields in it that nothing knows, or why it could not be read.
pub type LintCfgReading = Result<(LintCfg, Vec<String>), String>;

/// The configuration that a reading gives, if any.
pub open spec fn lint_cfg_read(reading: LintCfgReading) -> Option<LintCfg> {
    match reading {
        Ok((cfg, unknowns)) => Some(with_one_indentation(cfg)),
        Err(e) => None,
    }
}

/// What the user is told about a reading of the lint configuration.
pub open spec fn lint_reading_shown(reading: LintCfgReading) -> Seq<EffectView> {
    match reading {
        Ok((cfg, unknowns)) => unknown_lint_fields_shown(texts(unknowns@)),
        Err(e) => Seq::empty(),
    }
}

/// Takes a lint configuration over that was read: tells the user of fields
/// that nothing knows, and lets the rules agree on the size of a level.
pub fn maybe_parse_lint_cfg(reading: &LintCfgReading, out: &mut Outbox) -> (cfg: Option<LintCfg>)
    ensures
        cfg == lint_cfg_read(*reading),
        final(out)@ == old(out)@ + lint_reading_shown(*reading),
{
    match reading {
        Ok((cfg, unknowns)) => {
            maybe_notify_unknown_lint_fields(out, unknowns);
            let mut cfg = *cfg;
            setup_indentation_size(&mut cfg);
            Some(cfg)
        },
        Err(_) => {
            assert(out@ =~= old(out)@ + Seq::<EffectView>::empty());
            None
        },
    }
}

} // verus!
