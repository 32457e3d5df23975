//! Copies of what surfaces hold.

use vstd::prelude::*;
use crate::control::copy_text;
use crate::mcp::{copy_location, McpFormDraft, McpServerDefinition, McpTransportConfig};
use crate::mcp_package::{
    McpPackageDraft, McpPackageParameter, McpPackageSecret, McpParameterValue, ParameterView,
};
use crate::settings::{SettingDefinition, SettingKind};

verus! {

pub fn copy_texts(texts: &Vec<String>) -> (copy: Vec<String>)
    ensures
        copy@ == texts@,
{
    let mut copy: Vec<String> = Vec::new();
    let mut i: usize = 0;
    while i < texts.len()
        invariant
            i <= texts@.len(),
            copy@ == texts@.take(i as int),
        decreases texts@.len() - i,
    {
        copy.push(texts[i].clone());
        i += 1;
        proof {
            assert(copy@ =~= texts@.take(i as int));
        }
    }
    proof {
        assert(texts@.take(i as int) =~= texts@);
    }
    copy
}

pub fn copy_pairs(pairs: &Vec<(String, String)>) -> (copy: Vec<(String, String)>)
    ensures
        copy@ == pairs@,
{
    let mut copy: Vec<(String, String)> = Vec::new();
    let mut i: usize = 0;
    while i < pairs.len()
        invariant
            i <= pairs@.len(),
            copy@ == pairs@.take(i as int),
        decreases pairs@.len() - i,
    {
        copy.push((pairs[i].0.clone(), pairs[i].1.clone()));
        i += 1;
        proof {
            assert(copy@ =~= pairs@.take(i as int));
        }
    }
    proof {
        assert(pairs@.take(i as int) =~= pairs@);
    }
    copy
}

/// Whether two drafts of a server say the same.
pub open spec fn same_form(left: McpFormDraft, right: McpFormDraft) -> bool {
    &&& left.original == right.original
    &&& left.location == right.location
    &&& left.name == right.name
    &&& left.definition@ == right.definition@
}

fn copy_transport(transport: &McpTransportConfig) -> (copy: McpTransportConfig)
    ensures
        copy@ == transport@,
{
    match transport {
        McpTransportConfig::Stdio { command, args, cwd, env, env_remove, inherit_env } => {
            McpTransportConfig::Stdio {
                command: command.clone(),
                args: copy_texts(args),
                cwd: copy_text(cwd),
                env: copy_pairs(env),
                env_remove: copy_texts(env_remove),
                inherit_env: *inherit_env,
            }
        },
        McpTransportConfig::StreamableHttp { url, headers, allow_insecure } => {
            McpTransportConfig::StreamableHttp {
                url: url.clone(),
                headers: copy_pairs(headers),
                allow_insecure: *allow_insecure,
            }
        },
    }
}

pub fn copy_definition(definition: &McpServerDefinition) -> (copy: McpServerDefinition)
    ensures
        copy@ == definition@,
{
    McpServerDefinition {
        transport: copy_transport(&definition.transport),
        enabled: definition.enabled,
        agents: copy_texts(&definition.agents),
        eager: definition.eager,
        startup_timeout_seconds: definition.startup_timeout_seconds,
        request_timeout_seconds: definition.request_timeout_seconds,
        read_only_tools: copy_texts(&definition.read_only_tools),
        package: copy_text(&definition.package),
    }
}

pub fn copy_form(draft: &McpFormDraft) -> (copy: McpFormDraft)
    ensures
        same_form(copy, *draft),
{
    McpFormDraft {
        original: match &draft.original {
            None => None,
            Some((location, name)) => Some((copy_location(location), name.clone())),
        },
        location: copy_location(&draft.location),
        name: draft.name.clone(),
        definition: copy_definition(&draft.definition),
    }
}

/// The contents of the values of parameters.
pub open spec fn value_views(values: Seq<Option<McpParameterValue>>) -> Seq<Option<ParameterView>> {
    values.map_values(
        |value: Option<McpParameterValue>|
            match value {
                None => None,
                Some(value) => Some(value@),
            },
    )
}

/// Whether two drafts of a package say the same.
pub open spec fn same_setup(left: McpPackageDraft, right: McpPackageDraft) -> bool {
    &&& left.package_id == right.package_id
    &&& left.package_name == right.package_name
    &&& left.server_name == right.server_name
    &&& left.location == right.location
    &&& left.secrets@ == right.secrets@
    &&& left.parameters@ == right.parameters@
    &&& value_views(left.values@) == value_views(right.values@)
    &&& left.secret_updates@ == right.secret_updates@
    &&& left.installed == right.installed
}

fn copy_value(value: &Option<McpParameterValue>) -> (copy: Option<McpParameterValue>)
    ensures
        copy is Some == value is Some,
        copy matches Some(copied) ==> copied@ == value->Some_0@,
{
    match value {
        None => None,
        Some(McpParameterValue::Text(text)) => Some(McpParameterValue::Text(text.clone())),
        Some(McpParameterValue::Texts(texts)) => Some(McpParameterValue::Texts(copy_texts(texts))),
        Some(McpParameterValue::Integer(value)) => Some(McpParameterValue::Integer(*value)),
        Some(McpParameterValue::Boolean(value)) => Some(McpParameterValue::Boolean(*value)),
    }
}

fn copy_values(values: &Vec<Option<McpParameterValue>>) -> (copy: Vec<Option<McpParameterValue>>)
    ensures
        value_views(copy@) == value_views(values@),
{
    let mut copy: Vec<Option<McpParameterValue>> = Vec::new();
    let mut i: usize = 0;
    while i < values.len()
        invariant
            i <= values@.len(),
            copy@.len() == i,
            forall|k: int|
                0 <= k < i ==> #[trigger] value_views(copy@)[k] == value_views(values@)[k],
        decreases values@.len() - i,
    {
        let ghost before = copy@;
        copy.push(copy_value(&values[i]));
        proof {
            assert forall|k: int| 0 <= k <= i implies #[trigger] value_views(copy@)[k]
                == value_views(values@)[k] by {
                if k < i {
                    assert(value_views(before)[k] == value_views(values@)[k]);
                }
            }
        }
        i += 1;
    }
    proof {
        assert(value_views(copy@) =~= value_views(values@));
    }
    copy
}

fn copy_secrets(secrets: &Vec<McpPackageSecret>) -> (copy: Vec<McpPackageSecret>)
    ensures
        copy@ == secrets@,
{
    let mut copy: Vec<McpPackageSecret> = Vec::new();
    let mut i: usize = 0;
    while i < secrets.len()
        invariant
            i <= secrets@.len(),
            copy@ == secrets@.take(i as int),
        decreases secrets@.len() - i,
    {
        let secret = &secrets[i];
        copy.push(
            McpPackageSecret {
                id: secret.id.clone(),
                label: secret.label.clone(),
                description: copy_text(&secret.description),
                configured: secret.configured,
            },
        );
        i += 1;
        proof {
            assert(copy@ =~= secrets@.take(i as int));
        }
    }
    proof {
        assert(secrets@.take(i as int) =~= secrets@);
    }
    copy
}

fn copy_parameters(parameters: &Vec<McpPackageParameter>) -> (copy: Vec<McpPackageParameter>)
    ensures
        copy@ == parameters@,
{
    let mut copy: Vec<McpPackageParameter> = Vec::new();
    let mut i: usize = 0;
    while i < parameters.len()
        invariant
            i <= parameters@.len(),
            copy@ == parameters@.take(i as int),
        decreases parameters@.len() - i,
    {
        let parameter = &parameters[i];
        copy.push(
            McpPackageParameter {
                id: parameter.id.clone(),
                label: parameter.label.clone(),
                kind: parameter.kind,
                description: copy_text(&parameter.description),
            },
        );
        i += 1;
        proof {
            assert(copy@ =~= parameters@.take(i as int));
        }
    }
    proof {
        assert(parameters@.take(i as int) =~= parameters@);
    }
    copy
}

fn copy_updates(updates: &Vec<Option<String>>) -> (copy: Vec<Option<String>>)
    ensures
        copy@ == updates@,
{
    let mut copy: Vec<Option<String>> = Vec::new();
    let mut i: usize = 0;
    while i < updates.len()
        invariant
            i <= updates@.len(),
            copy@ == updates@.take(i as int),
        decreases updates@.len() - i,
    {
        copy.push(copy_text(&updates[i]));
        i += 1;
        proof {
            assert(copy@ =~= updates@.take(i as int));
        }
    }
    proof {
        assert(updates@.take(i as int) =~= updates@);
    }
    copy
}

pub fn copy_setup(draft: &McpPackageDraft) -> (copy: McpPackageDraft)
    ensures
        same_setup(copy, *draft),
{
    McpPackageDraft {
        package_id: draft.package_id.clone(),
        package_name: draft.package_name.clone(),
        server_name: draft.server_name.clone(),
        location: copy_location(&draft.location),
        secrets: copy_secrets(&draft.secrets),
        parameters: copy_parameters(&draft.parameters),
        values: copy_values(&draft.values),
        secret_updates: copy_updates(&draft.secret_updates),
        installed: draft.installed,
    }
}

/// Whether two kinds of settings take the same.
pub open spec fn same_kind(left: SettingKind, right: SettingKind) -> bool {
    match (left, right) {
        (SettingKind::List(a), SettingKind::List(b)) => a@ == b@,
        (SettingKind::TomlChoices(a), SettingKind::TomlChoices(b)) => a@ == b@,
        (SettingKind::DefaultAgentPicker(a), SettingKind::DefaultAgentPicker(b)) => a@ == b@,
        _ => left == right,
    }
}

/// Whether two settings are the same.
pub open spec fn same_setting(left: SettingDefinition, right: SettingDefinition) -> bool {
    &&& left.key == right.key
    &&& left.label == right.label
    &&& left.description == right.description
    &&& same_kind(left.kind, right.kind)
    &&& left.section == right.section
    &&& left.default_value == right.default_value
}

fn copy_kind(kind: &SettingKind) -> (copy: SettingKind)
    ensures
        same_kind(copy, *kind),
{
    match kind {
        SettingKind::Boolean => SettingKind::Boolean,
        SettingKind::List(choices) => SettingKind::List(copy_pairs(choices)),
        SettingKind::TomlChoices(choices) => SettingKind::TomlChoices(copy_pairs(choices)),
        SettingKind::DefaultAgentPicker(choices) => SettingKind::DefaultAgentPicker(
            copy_pairs(choices),
        ),
        SettingKind::ModelPicker => SettingKind::ModelPicker,
        SettingKind::TomlArray => SettingKind::TomlArray,
        SettingKind::KeyBindings => SettingKind::KeyBindings,
        SettingKind::PositiveInteger => SettingKind::PositiveInteger,
        SettingKind::NonNegativeInteger => SettingKind::NonNegativeInteger,
        SettingKind::Text => SettingKind::Text,
    }
}

pub fn copy_setting(setting: &SettingDefinition) -> (copy: SettingDefinition)
    ensures
        same_setting(copy, *setting),
{
    SettingDefinition {
        key: setting.key.clone(),
        label: setting.label.clone(),
        description: setting.description.clone(),
        kind: copy_kind(&setting.kind),
        section: setting.section,
        default_value: setting.default_value.clone(),
    }
}

} // verus!
