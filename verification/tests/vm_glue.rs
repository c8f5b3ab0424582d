use avm_strings::arena::Arena;
use avm_strings::security::{
    allow_domain, allow_insecure_domain, escape_domain, get_choose_local_swf_path,
    get_sandbox_type, load_policy_file, policy_file_resolver, Activation, Object, SandboxType,
    Value,
};
use avm_strings::sound::{sound_allocator, PlayEffect, QueuedPlay, SoundHandle};

fn units_of(s: &str) -> Vec<u16> {
    s.bytes().map(|b| b as u16).collect()
}

fn activation(sandbox_type: SandboxType) -> Activation {
    Activation { arena: Arena::new(), sandbox_type, warnings: Vec::new() }
}

#[test]
fn security_stubs_warn_and_return_undefined() {
    let mut act = activation(SandboxType::Remote);
    let this = Object { id: 0 };
    let args: Vec<Value> = Vec::new();

    assert_eq!(allow_domain(&mut act, this, &args), Ok(Value::Undefined));
    assert_eq!(allow_insecure_domain(&mut act, this, &args), Ok(Value::Undefined));
    assert_eq!(load_policy_file(&mut act, this, &args), Ok(Value::Undefined));
    assert_eq!(escape_domain(&mut act, this, &args), Ok(Value::Undefined));
    assert_eq!(get_choose_local_swf_path(&mut act, this, &args), Ok(Value::Undefined));
    assert_eq!(policy_file_resolver(&mut act, this, &args), Ok(Value::Undefined));
    assert_eq!(act.warnings.len(), 6);
    assert_eq!(act.warnings[0], "System.security.allowDomain() not implemented");
}

#[test]
fn sandbox_type_reports_its_name() {
    let cases = [
        (SandboxType::Remote, "remote"),
        (SandboxType::LocalWithFile, "localWithFile"),
        (SandboxType::LocalWithNetwork, "localWithNetwork"),
        (SandboxType::LocalTrusted, "localTrusted"),
    ];
    for (sandbox, expected) in cases {
        let mut act = activation(sandbox);
        let this = Object { id: 0 };
        let args: Vec<Value> = Vec::new();
        match get_sandbox_type(&mut act, this, &args) {
            Ok(Value::String(h)) => assert_eq!(h.as_wstr(&act.arena), units_of(expected)),
            other => panic!("expected a string value, got {other:?}"),
        }
    }
}

#[test]
fn sound_starts_empty_and_generates_on_play() {
    let state = sound_allocator();
    assert!(state.sound_handle().is_none());
    let queued = QueuedPlay { sound_info: 1, sound_transform: None, sound_channel: 7 };
    let (state, effect) = state.play(queued);
    assert_eq!(effect, PlayEffect::ReturnChannel);
    let (_, effect2) = state.play(queued);
    assert_eq!(effect2, PlayEffect::ReturnChannel);
}

#[test]
fn sound_queues_plays_while_loading() {
    let state = sound_allocator().load_called();
    let q1 = QueuedPlay { sound_info: 1, sound_transform: Some(3), sound_channel: 10 };
    let q2 = QueuedPlay { sound_info: 2, sound_transform: None, sound_channel: 11 };
    let (state, e1) = state.play(q1);
    let (state, e2) = state.play(q2);
    assert_eq!(e1, PlayEffect::ReturnChannel);
    assert_eq!(e2, PlayEffect::ReturnChannel);

    let sound = SoundHandle { id: 42 };
    let (state, to_start) = state.set_sound(sound);
    assert_eq!(to_start, vec![q1, q2]);
    assert_eq!(state.sound_handle(), Some(sound));
}

#[test]
fn loaded_sound_plays_at_once() {
    let sound = SoundHandle { id: 5 };
    let (state, _) = sound_allocator().load_called().set_sound(sound);
    let q = QueuedPlay { sound_info: 9, sound_transform: None, sound_channel: 1 };
    let (state, effect) = state.play(q);
    assert_eq!(effect, PlayEffect::StartNow(q, sound));
    assert_eq!(state.sound_handle(), Some(sound));
}

#[test]
fn empty_sound_loads_into_an_empty_queue() {
    let state = sound_allocator();
    let state = state.load_called();
    let sound = SoundHandle { id: 8 };
    let (state, to_start) = state.set_sound(sound);
    assert!(to_start.is_empty());
    assert_eq!(state.sound_handle(), Some(sound));
}
