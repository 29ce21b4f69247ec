//! Sessions: creating them, recognizing repeated requests, sending turns.

use sha2::Digest;
use aoe_host::payload::{payload_bytes, spec_payload_hash, to_hex};
use aoe_host::session::{Instance, PluginCreateIdempotency, SandboxInfo, SessionView};
use aoe_host::session_service::{
    find_idempotent_match, plan_create, ClaimOutcome, CreateDecision, CreateScope, IdempotencyConflict,
    IdempotentMatch, SessionService,
};
use aoe_host::session_spawn::{
    after_spawn, container_failed, existing_branches, existing_titles, has_pending_initial_turn, spawn_structured_session, AfterSpawn,
    CreateError, ForkSeed, SpawnOutcome, StructuredSessionSpec,
};
use aoe_host::turns::{
    needs_resume, DrainEnd, ResumeTrigger, SendTurnError, SessionCaller, SupervisorError,
};

fn plugin_instance(plugin_id: &str, key: &str, payload_hash: &str) -> Instance {
    let mut inst = Instance::new("scheduled", "/tmp/aoe-2897-project");
    inst.created_by_plugin = Some(plugin_id.to_string());
    inst.plugin_create_idempotency = Some(PluginCreateIdempotency {
        key: key.to_string(),
        payload_hash: payload_hash.to_string(),
    });
    inst
}

fn test_spec() -> StructuredSessionSpec {
    StructuredSessionSpec {
        title: Some("nightly".to_string()),
        path: "/tmp/aoe-2897-project".to_string(),
        group: String::new(),
        tool: "opencode".to_string(),
        worktree_enabled: false,
        worktree_branch: None,
        create_new_branch: false,
        base_branch: None,
        sandbox: false,
        sandbox_image: None,
        yolo_mode: false,
        extra_env: Vec::new(),
        extra_args: String::new(),
        command_override: String::new(),
        extra_repo_paths: Vec::new(),
        scratch: false,
        trust_hooks: None,
        custom_instruction: None,
        profile: "default".to_string(),
        created_by_plugin: None,
        plugin_create_idempotency: None,
        pending_initial_turn: None,
        acp_mode_id: None,
        view: SessionView::Structured,
        agent_name: Some("opencode".to_string()),
        agent_model: None,
        agent_effort: None,
        import_acp_session_id: None,
        fork_seed: None,
    }
}

#[test]
fn payload_hash_is_deterministic_and_field_sensitive() {
    let spec = test_spec();
    let a = spec_payload_hash(&spec);
    let b = spec_payload_hash(&test_spec());
    assert_eq!(a, b, "same spec must hash identically across calls");

    let mut changed = test_spec();
    changed.path = "/tmp/aoe-2897-other".to_string();
    assert_ne!(a, spec_payload_hash(&changed), "a semantic field change must change the hash");

    let mut with_turn = test_spec();
    with_turn.pending_initial_turn = Some("run the nightly task".to_string());
    assert_ne!(a, spec_payload_hash(&with_turn), "the initial turn is part of the request identity");

    // Adjacent-field concatenation must not collide: moving a suffix of
    // one field into the prefix of the next is a different request.
    let mut shifted_a = test_spec();
    shifted_a.extra_args = "ab".to_string();
    shifted_a.command_override = "c".to_string();
    let mut shifted_b = test_spec();
    shifted_b.extra_args = "a".to_string();
    shifted_b.command_override = "bc".to_string();
    assert_ne!(spec_payload_hash(&shifted_a), spec_payload_hash(&shifted_b));
}

/// The hash is the digest of the fields, written out here by hand.
#[test]
fn payload_hash_is_the_digest_of_the_fields() {
    let fields: [(&str, &[u8]); 26] = [
        ("version", b"1"),
        ("title", b"nightly"),
        ("path", b"/tmp/aoe-2897-project"),
        ("group", b""),
        ("tool", b"opencode"),
        ("worktree_enabled", b"false"),
        ("worktree_branch", b""),
        ("create_new_branch", b"false"),
        ("base_branch", b""),
        ("sandbox", b"false"),
        ("sandbox_image", b""),
        ("yolo_mode", b"false"),
        ("extra_env", "A=1\u{1f}B=\u{e9}".as_bytes()),
        ("extra_args", b""),
        ("command_override", b""),
        ("extra_repo_paths", b""),
        ("scratch", b"false"),
        ("custom_instruction", b""),
        ("profile", b"default"),
        ("initial_turn", b""),
        ("acp_mode_id", b""),
        ("view", b"Structured"),
        ("agent_name", b"opencode"),
        ("agent_model", b""),
        ("agent_effort", b""),
        ("import_acp_session_id", b""),
    ];
    let mut hasher = sha2::Sha256::new();
    for (name, value) in fields {
        hasher.update(name.as_bytes());
        hasher.update([0x1f]);
        hasher.update((value.len() as u64).to_le_bytes());
        hasher.update(value);
        hasher.update([0x1e]);
    }
    let want: String = hasher.finalize().iter().map(|b| format!("{b:02x}")).collect();
    let mut spec = test_spec();
    spec.extra_env = vec!["A=1".to_string(), "B=\u{e9}".to_string()];
    assert_eq!(spec_payload_hash(&spec), want);
    assert_eq!(want.len(), 64);
    assert!(want.chars().all(|c| c.is_ascii_digit() || ('a'..='f').contains(&c)));
    assert_eq!(to_hex(&vec![0, 9, 10, 255]), "00090aff");
    // Whether hooks are trusted and who asks are not part of the identity.
    spec.trust_hooks = Some(true);
    spec.created_by_plugin = Some("cron".to_string());
    assert_eq!(spec_payload_hash(&spec), want);
}

/// Lists that look alike when their texts are run together are different requests.
#[test]
fn payload_hash_tells_lists_apart() {
    let with_env = |env: &[&str]| {
        let mut spec = test_spec();
        spec.extra_env = env.iter().map(|e| e.to_string()).collect();
        spec_payload_hash(&spec)
    };
    assert_ne!(with_env(&["x\u{1f}y"]), with_env(&["x", "y"]));
    assert_ne!(with_env(&[]), with_env(&[""]));
    assert_ne!(with_env(&["a", "bc"]), with_env(&["ab", "c"]));
    assert_eq!(with_env(&["a", "bc"]), with_env(&["a", "bc"]));
    let with_repos = |repos: &[&str]| {
        let mut spec = test_spec();
        spec.extra_repo_paths = repos.iter().map(|e| e.to_string()).collect();
        spec_payload_hash(&spec)
    };
    assert_ne!(with_repos(&["/a\u{1f}/b"]), with_repos(&["/a", "/b"]));

    // A text with the separator makes the whole list a marked one.
    let mut spec = test_spec();
    spec.extra_env = vec!["x\u{1f}y".to_string(), "z".to_string()];
    let list: Vec<u8> = [
        &[0xff][..],
        &2u64.to_le_bytes()[..],
        &3u64.to_le_bytes()[..],
        b"x\x1fy",
        &1u64.to_le_bytes()[..],
        b"z",
    ]
    .concat();
    let want = [b"extra_env\x1f", &(list.len() as u64).to_le_bytes()[..], &list, b"\x1eextra_args\x1f"].concat();
    let bytes = payload_bytes(&spec);
    assert!(bytes.windows(want.len()).any(|w| w == want));
}

#[test]
fn idempotent_match_same_conflict_and_scope() {
    let instances = vec![plugin_instance("cron", "job-1:2026-07-16", "hash-a")];

    assert!(matches!(
        find_idempotent_match(&instances, "cron", "job-1:2026-07-16", "hash-a"),
        IdempotentMatch::Same(_)
    ));
    assert!(matches!(
        find_idempotent_match(&instances, "cron", "job-1:2026-07-16", "hash-b"),
        IdempotentMatch::Conflict
    ));
    // Another plugin may reuse the same key: scopes are per plugin id.
    assert!(matches!(
        find_idempotent_match(&instances, "other-plugin", "job-1:2026-07-16", "hash-a"),
        IdempotentMatch::NoMatch
    ));
    assert!(matches!(
        find_idempotent_match(&instances, "cron", "job-2:2026-07-16", "hash-a"),
        IdempotentMatch::NoMatch
    ));
}

#[test]
fn idempotent_match_survives_triage_but_not_removal() {
    let mut archived = plugin_instance("cron", "k", "h");
    archived.archived = true;
    let mut trashed = plugin_instance("cron", "k2", "h");
    trashed.trashed = true;
    let instances = vec![archived, trashed];

    assert!(matches!(find_idempotent_match(&instances, "cron", "k", "h"), IdempotentMatch::Same(_)));
    assert!(matches!(find_idempotent_match(&instances, "cron", "k2", "h"), IdempotentMatch::Same(_)));
    // Hard delete: the record is gone from the list, the key is free.
    assert!(matches!(find_idempotent_match(&[], "cron", "k", "h"), IdempotentMatch::NoMatch));
}

#[test]
fn in_flight_claim_waits_same_hash_and_conflicts_on_mismatch() {
    let mut service = SessionService::new(Vec::new());
    assert_eq!(service.try_claim_in_flight("cron", "job-1", "hash-a"), ClaimOutcome::Claimed, "first claim must win");
    assert_eq!(
        service.try_claim_in_flight("cron", "job-1", "hash-a"),
        ClaimOutcome::Wait,
        "identical concurrent claim must wait"
    );
    assert_eq!(
        service.try_claim_in_flight("cron", "job-1", "hash-b"),
        ClaimOutcome::Conflict,
        "same key with a different payload must conflict"
    );
    assert_eq!(service.try_claim_in_flight("other", "job-1", "hash-b"), ClaimOutcome::Claimed);
    service.release_in_flight("cron", "job-1");
    assert_eq!(
        service.try_claim_in_flight("cron", "job-1", "hash-a"),
        ClaimOutcome::Claimed,
        "released scope must be claimable again"
    );
    assert_eq!(service.try_claim_in_flight("other", "job-1", "hash-b"), ClaimOutcome::Wait);
}

#[test]
fn creates_are_planned_and_decided() {
    let mut spec = test_spec();
    spec.trust_hooks = Some(true);
    let user = plan_create(spec, None, Some("k"), Some("hi"));
    assert!(user.scope.is_none());
    assert_eq!(user.spec.trust_hooks, Some(true));
    assert_eq!(user.spec.pending_initial_turn.as_deref(), Some("hi"));

    let mut spec = test_spec();
    spec.trust_hooks = Some(true);
    let plugin = plan_create(spec, Some("cron"), None, None);
    assert!(plugin.scope.is_none());
    assert_eq!(plugin.spec.trust_hooks, Some(false), "a plugin cannot approve hooks");
    assert_eq!(plugin.spec.created_by_plugin.as_deref(), Some("cron"));

    let mut service = SessionService::new(Vec::new());
    let step = service.create_structured_session(test_spec(), Some("cron"), Some("k"), None);
    assert!(matches!(step.decision, CreateDecision::Build));
    let scope = step.plan.scope.expect("a keyed create has a scope");
    assert_eq!(scope.payload_hash, spec_payload_hash(&test_spec()));
    assert_eq!(step.plan.spec.plugin_create_idempotency.expect("a record").payload_hash, scope.payload_hash);
    assert!(matches!(service.decide_create(&scope), CreateDecision::Wait));
    let other = CreateScope {
        plugin_id: "cron".to_string(),
        key: "k".to_string(),
        payload_hash: "x".to_string(),
    };
    match service.decide_create(&other) {
        CreateDecision::Conflict(c) => assert_eq!(
            c.message(),
            "idempotency key \"k\" was already used with a different request payload"
        ),
        d => panic!("a conflict, got {d:?}"),
    }
    service.release_in_flight("cron", "k");
    let mut made = plugin_instance("cron", "k", &scope.payload_hash);
    made.id = "s1".to_string();
    service.instances.push(made);
    match service.decide_create(&scope) {
        CreateDecision::Existing(i) => assert_eq!(i.id, "s1"),
        d => panic!("the session that was made, got {d:?}"),
    }
    assert!(matches!(service.decide_create(&other), CreateDecision::Conflict(_)));
    assert_eq!(
        IdempotencyConflict { key: "a\"b".to_string() }.message(),
        "idempotency key \"a\\\"b\" was already used with a different request payload"
    );
}

fn owned_sessions() -> SessionService {
    let mut user_session = Instance::new("user-owned", "/tmp/aoe-2897-project");
    user_session.id = "sess-user".to_string();
    let mut cron_session = Instance::new("cron-owned", "/tmp/aoe-2897-project");
    cron_session.id = "sess-cron".to_string();
    cron_session.created_by_plugin = Some("cron".to_string());
    cron_session.acp_mode_id = Some("plan".to_string());
    SessionService::new(vec![user_session, cron_session])
}

#[test]
fn send_turn_enforces_plugin_ownership_before_any_side_effect() {
    let service = owned_sessions();
    let cron = SessionCaller::Plugin { plugin_id: "cron".to_string() };
    let other = SessionCaller::Plugin { plugin_id: "other-plugin".to_string() };

    // A plugin cannot deliver to a user-created session, another
    // plugin's session, or a missing session.
    assert!(matches!(service.send_turn(&cron, "sess-user"), Err(SendTurnError::NotOwner)));
    assert!(matches!(service.send_turn(&other, "sess-cron"), Err(SendTurnError::NotOwner)));
    assert!(matches!(service.send_turn(&cron, "sess-gone"), Err(SendTurnError::SessionNotFound)));

    // The owner passes; so does the user.
    assert!(service.send_turn(&cron, "sess-cron").is_ok());
    assert!(service.send_turn(&SessionCaller::User, "sess-user").is_ok());
}

#[test]
fn turns_go_step_by_step() {
    let service = owned_sessions();
    let cron = SessionCaller::Plugin { plugin_id: "cron".to_string() };
    assert!(needs_resume(true, true) && needs_resume(false, false) && !needs_resume(false, true));
    // A person's turn sets no mode; a plugin's runs under the session's own.
    let user = service.send_turn(&SessionCaller::User, "sess-cron").expect("let through").running();
    assert!(user.mode_to_assert.is_none());
    let admitted = || service.send_turn(&cron, "sess-cron").expect("let through");
    assert_eq!(admitted().mode_to_assert.as_deref(), Some("plan"));
    assert!(matches!(
        admitted().resumed(Ok(ResumeTrigger::NotFound)),
        Err(SendTurnError::SessionNotFound)
    ));
    assert!(matches!(
        admitted().resumed(Err(SupervisorError::Other("full".to_string()))),
        Err(SendTurnError::ResumeFailed(_))
    ));
    // A mode that cannot be set withholds the turn.
    let resumed = admitted().resumed(Ok(ResumeTrigger::Triggered)).expect("resumed");
    assert!(matches!(
        resumed.mode_asserted(Some(Err(SupervisorError::Other("no".to_string())))),
        Err(SendTurnError::ModeApplication(_))
    ));
    let ready = || {
        admitted()
            .resumed(Ok(ResumeTrigger::Triggered))
            .expect("resumed")
            .mode_asserted(Some(Ok(())))
            .expect("ready")
    };
    assert!(ready().sent(Ok(())).is_ok());
    assert!(matches!(
        ready().sent(Err(SupervisorError::UnknownSession("x".to_string()))),
        Err(SendTurnError::WorkerNotReady)
    ));
    assert!(matches!(
        ready().sent(Err(SupervisorError::Other("x".to_string()))),
        Err(SendTurnError::Send(_))
    ));
    // A worker that was running and is unknown is an error of its own.
    let running = admitted().running().mode_asserted(Some(Ok(()))).expect("ready");
    let err = running.sent(Err(SupervisorError::UnknownSession("gone".to_string()))).unwrap_err();
    assert_eq!(err.message(), "prompt forward failed: gone");
    assert_eq!(SendTurnError::WorkerNotReady.message(), "worker not ready");
    assert_eq!(SendTurnError::NotOwner.message(), "session was not created by the calling plugin");
}

#[test]
fn drain_is_a_noop_without_a_pending_turn_and_releases_its_claim() {
    let mut inst = Instance::new("no-pending", "/tmp/aoe-2897-project");
    inst.id = "sess-drain".to_string();
    inst.view = SessionView::Structured;
    let mut service = SessionService::new(vec![inst]);

    // No pending turn: nothing to deliver. Missing session: same. Both must
    // release the per-session claim so a later drain can run.
    assert!(service.claim_drain("sess-drain"));
    assert!(service.drain_pending_initial_turn("sess-drain").is_none());
    assert!(service.claim_drain("sess-missing"));
    assert!(service.drain_pending_initial_turn("sess-missing").is_none());
    assert!(service.pending_drains.is_empty(), "drain must release its claim on the no-op paths");
}

#[test]
fn pending_turns_are_delivered_once() {
    let mut inst = Instance::new("t", "/p");
    inst.id = "s".to_string();
    inst.source_profile = "work".to_string();
    inst.created_by_plugin = Some("cron".to_string());
    inst.pending_initial_turn = Some("go".to_string());
    let mut service = SessionService::new(vec![inst]);
    assert!(service.claim_drain("s"));
    assert!(!service.claim_drain("s"), "only one delivery at a time");
    let turn = service.drain_pending_initial_turn("s").expect("a turn");
    assert_eq!(turn.text, "go");
    assert!(matches!(&turn.caller, SessionCaller::Plugin { plugin_id } if plugin_id == "cron"));
    // A failed delivery keeps the turn.
    assert!(matches!(service.end_drain(turn, Err(SendTurnError::WorkerNotReady)), DrainEnd::Retry(_)));
    assert!(service.pending_drains.is_empty());
    assert!(service.claim_drain("s"));
    let turn = service.drain_pending_initial_turn("s").expect("still there");
    assert!(matches!(service.end_drain(turn, Ok(())), DrainEnd::ClearStored { profile } if profile == "work"));
    assert!(service.claim_drain("s"));
    assert!(service.drain_pending_initial_turn("s").is_none());
    assert!(service.instances[0].pending_initial_turn.is_none());
}

#[test]
fn locks_are_kept_per_session() {
    let mut service = SessionService::new(Vec::new());
    let a = service.instance_lock("a");
    let b = service.instance_lock("b");
    assert_ne!(a, b);
    assert_eq!(service.instance_lock("a"), a);
    assert_eq!(service.instance_locks.len(), 2);
}

#[test]
fn requests_become_parameters() {
    let mut spec = test_spec();
    spec.title = None;
    spec.worktree_branch = Some("  ".to_string());
    spec.base_branch = Some(" main ".to_string());
    spec.extra_repo_paths = vec!["".to_string(), "/r".to_string()];
    let query = spawn_structured_session(spec, "");
    assert!(!query.trust);
    assert_eq!(query.params.title, "");
    assert!(query.params.worktree_branch.is_none());
    assert!(query.params.base_branch.is_none(), "a base branch counts only for a new branch");
    assert_eq!(query.params.sandbox_image, "ubuntu:latest");
    assert_eq!(query.params.extra_repo_paths, vec!["/r"]);
    let mut spec = test_spec();
    spec.create_new_branch = true;
    spec.base_branch = Some(" main ".to_string());
    spec.fork_seed = Some(ForkSeed { session_id: "parent".to_string() });
    let query = spawn_structured_session(spec, "img");
    assert_eq!(query.params.base_branch.as_deref(), Some("main"));
    assert_eq!(query.params.sandbox_image, "img");
    assert!(query.params.fork_seed.is_some());
}

fn built(tool: &str) -> SpawnOutcome {
    let mut instance = Instance::new("t", "/p");
    instance.id = "new".to_string();
    instance.tool = tool.to_string();
    instance.fork_pending = Some("parent".to_string());
    instance.sandbox_info = Some(SandboxInfo { custom_instruction: None });
    instance.scratch = true;
    SpawnOutcome { instance, warnings: vec!["w".to_string()] }
}

#[test]
fn sessions_are_built_step_by_step() {
    // Nothing is built before the hooks are settled.
    assert!(matches!(
        spawn_structured_session(test_spec(), "").hooks_resolved(Err(CreateError::HooksNeedTrust)),
        Err(CreateError::HooksNeedTrust)
    ));
    let query = |spec: StructuredSessionSpec| {
        spawn_structured_session(spec, "")
            .hooks_resolved(Ok(()))
            .expect("approved")
            .built(Ok(built("opencode")))
            .expect("built")
    };
    let mut spec = test_spec();
    spec.custom_instruction = Some("be brief".to_string());
    spec.agent_model = Some(" m1 ".to_string());
    spec.acp_mode_id = Some("plan".to_string());
    let q = query(spec);
    assert_eq!(q.agent_key, "opencode");
    assert_eq!(q.explicit_model.as_deref(), Some("m1"));
    assert_eq!(q.instance.sandbox_info.as_ref().and_then(|s| s.custom_instruction.as_deref()), Some("be brief"));
    // A capable agent keeps the structured view, the looked-up model and the effort.
    let registry = vec!["opencode".to_string()];
    let order = q.agent_resolved(Some("m2".to_string()), Some("high".to_string()), &registry, false);
    assert_eq!(order.instance.view, SessionView::Structured);
    assert_eq!(order.instance.agent_model.as_deref(), Some("m2"));
    assert_eq!(order.effort.as_deref(), Some("high"));
    let failure = query(test_spec())
        .agent_resolved(None, None, &registry, false)
        .hooks_ran(Err("exit 1".to_string()))
        .unwrap_err();
    assert!(failure.remove_build);
    assert!(matches!(failure.error, CreateError::Failed(m) if m == "on_create hook failed: exit 1"));
    let persist = order.hooks_ran(Ok(())).expect("hooks ran");
    assert!(!persist.starts_terminal());
    let created = persist.stored(Ok(()), false).expect("stored");
    let mut sessions = vec![Instance::new("old", "/o")];
    let mut creates: u32 = u32::MAX;
    let (outcome, target) = created.register(&mut sessions, &mut creates);
    assert_eq!(outcome.instance.id, "new");
    assert_eq!(outcome.warnings, vec!["w"]);
    assert_eq!(sessions.len(), 2);
    assert_eq!(creates, 0);
    let target = target.expect("a structured session has a worker");
    assert_eq!(target.acp_mode_id.as_deref(), Some("plan"));
    assert_eq!(target.fork_from.as_deref(), Some("parent"));
    assert!(!target.seed_history_replay);
}

#[test]
fn incapable_agents_fall_back_to_the_terminal() {
    let mut spec = test_spec();
    spec.view = SessionView::Terminal;
    spec.agent_name = Some(String::new());
    spec.agent_model = Some("mine".to_string());
    spec.import_acp_session_id = Some("abc".to_string());
    let q = spawn_structured_session(spec, "").hooks_resolved(Ok(())).expect("ok").built(Ok(built("vim"))).expect("ok");
    assert_eq!(q.agent_key, "vim", "an empty name falls back to the tool");
    assert_eq!(q.instance.view, SessionView::Structured, "an import is structured");
    assert_eq!(q.instance.import_pending, Some(true));
    let order = q.agent_resolved(Some("default".to_string()), Some("high".to_string()), &Vec::new(), false);
    assert_eq!(order.instance.view, SessionView::Terminal);
    assert!(order.instance.import_pending.is_none() && order.instance.fork_pending.is_none());
    assert_eq!(order.instance.agent_model.as_deref(), Some("mine"));
    assert!(order.effort.is_none());
    let persist = order.hooks_ran(Ok(())).expect("hooks ran");
    assert!(persist.starts_terminal());
    let failure = persist.stored(Err("disk".to_string()), true).unwrap_err();
    assert_eq!(failure.remove_scratch.as_deref(), Some("/p"));
    assert!(!failure.remove_build);
    // A launch command of its own makes a tool capable.
    let q = spawn_structured_session(test_spec(), "").hooks_resolved(Ok(())).expect("ok").built(Ok(built("x"))).expect("ok");
    assert_eq!(q.agent_resolved(None, None, &Vec::new(), true).instance.view, SessionView::Structured);
}

#[test]
fn what_follows_a_worker() {
    let mut a = Instance::new("a", "/p");
    a.id = "a".to_string();
    a.worktree_branch = Some("b1".to_string());
    a.pending_initial_turn = Some("go".to_string());
    let sessions = vec![a, Instance::new("c", "/q")];
    assert!(has_pending_initial_turn(&sessions, "a"));
    assert!(!has_pending_initial_turn(&sessions, "gone"));
    assert_eq!(existing_titles(&sessions), vec!["a", "c"]);
    assert_eq!(existing_branches(&sessions), vec!["b1"]);
    assert!(matches!(after_spawn(&sessions, "a", Ok(()), true), AfterSpawn::DeliverTurn));
    assert!(matches!(after_spawn(&sessions, "a", Ok(()), false), AfterSpawn::Nothing));
    assert!(matches!(after_spawn(&sessions, "a", Err("e".into()), true), AfterSpawn::PublishError(_)));
    assert!(matches!(after_spawn(&sessions, "gone", Err("e".into()), true), AfterSpawn::Ignore(_)));
    assert!(matches!(
        container_failed("x"),
        AfterSpawn::PublishError(m) if m == "sandbox container ensure failed: x"
    ));
}
