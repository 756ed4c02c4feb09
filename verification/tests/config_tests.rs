use neonmachines::session::WorkflowSet;
use neonmachines::nm_config::{
    config_file_name, default_workflow, load_nm_or_create, nm_text, parse_nm, preset_workflows,
    AgentRow, AgentType, WorkflowConfig,
};

#[test]
fn parse_reads_workflow_settings_and_agents() {
    let text = "workflow: demo\nworking_dir: /tmp/work\nmaximum_traversals: 7\nagent_1: Agent\nfiles:\"role:system:a.poml\"\nmaximum_iterations:4\non_success:1\nagent_2: ValidatorAgent\nfiles:\"role:user:b.poml\"\non_failure:0   # retry the first agent\n";
    let c = parse_nm(text);
    assert_eq!(c.name, "demo");
    assert_eq!(c.working_dir, "/tmp/work");
    assert_eq!(c.maximum_traversals, 7);
    assert_eq!(c.active_agent_index, 0);
    assert_eq!(c.rows.len(), 2);
    assert_eq!(c.rows[0].agent_type, AgentType::Agent);
    assert_eq!(c.rows[0].files, "role:system:a.poml");
    assert_eq!(c.rows[0].max_iterations, 4);
    assert_eq!(c.rows[0].on_success, Some(1));
    assert_eq!(c.rows[0].on_failure, None);
    assert_eq!(c.rows[1].agent_type, AgentType::Validator);
    assert_eq!(c.rows[1].files, "role:user:b.poml");
    assert_eq!(c.rows[1].max_iterations, 3);
    assert_eq!(c.rows[1].on_success, None);
    assert_eq!(c.rows[1].on_failure, Some(0));
}

#[test]
fn parse_reads_end_route_and_parallel_agents() {
    let c = parse_nm("agent_1: ParallelAgent\non_success:-1\n");
    assert_eq!(c.name, "default");
    assert_eq!(c.rows.len(), 1);
    assert_eq!(c.rows[0].agent_type, AgentType::ParallelAgent);
    assert_eq!(c.rows[0].on_success, Some(-1));
}

#[test]
fn parse_of_empty_text_gives_the_default() {
    let c = parse_nm("");
    let d = default_workflow();
    assert_eq!(c.name, d.name);
    assert_eq!(c.rows.len(), 1);
    assert_eq!(c.rows[0].agent_type, AgentType::Agent);
    assert_eq!(c.rows[0].files, "");
    assert_eq!(c.rows[0].max_iterations, 3);
    assert_eq!(c.working_dir, ".");
    assert_eq!(c.maximum_traversals, 10);
}

#[test]
fn parse_keeps_defaults_for_bad_numbers() {
    let c = parse_nm("maximum_traversals: many\nagent_1: Agent\nmaximum_iterations: x\non_success: next\n");
    assert_eq!(c.maximum_traversals, 10);
    assert_eq!(c.rows[0].max_iterations, 3);
    assert_eq!(c.rows[0].on_success, None);
}

#[test]
fn writer_produces_the_config_text() {
    let d = default_workflow();
    assert_eq!(
        nm_text(&d),
        "workflow:default\nagent_1: Agent\nfiles:\"\"\nmaximum_iterations:3\n"
    );
}

#[test]
fn written_config_reads_back_the_same() {
    let mut rows: Vec<AgentRow> = Vec::new();
    rows.push(AgentRow {
        agent_type: AgentType::Agent,
        files: "role:system:x.poml;role:user:y.poml".to_string(),
        max_iterations: 5,
        on_success: Some(1),
        on_failure: None,
    });
    rows.push(AgentRow {
        agent_type: AgentType::Validator,
        files: "role:user:check.poml".to_string(),
        max_iterations: 2,
        on_success: Some(-1),
        on_failure: Some(0),
    });
    let c = WorkflowConfig {
        name: "pipeline".to_string(),
        rows,
        active_agent_index: 0,
        working_dir: "/srv/data".to_string(),
        maximum_traversals: 12,
    };
    let text = nm_text(&c);
    let back = parse_nm(&text);
    assert_eq!(back.name, c.name);
    assert_eq!(back.working_dir, ".");
    assert_eq!(back.maximum_traversals, 10);
    assert_eq!(back.rows.len(), 2);
    for i in 0..2 {
        assert_eq!(back.rows[i].agent_type, c.rows[i].agent_type);
        assert_eq!(back.rows[i].files, c.rows[i].files);
        assert_eq!(back.rows[i].max_iterations, c.rows[i].max_iterations);
        assert_eq!(back.rows[i].on_success, c.rows[i].on_success);
        assert_eq!(back.rows[i].on_failure, c.rows[i].on_failure);
    }
}

#[test]
fn load_or_create_uses_the_text_or_the_default() {
    let c = load_nm_or_create(Some("workflow: mine\n"));
    assert_eq!(c.name, "mine");
    let d = load_nm_or_create(None);
    assert_eq!(d.name, "default");
    assert_eq!(d.rows.len(), 1);
    assert_eq!(config_file_name(), "config.nm");
}

#[test]
fn presets_are_default_and_security_checker() {
    let p = preset_workflows();
    assert_eq!(p.len(), 2);
    assert_eq!(p[0].name, "default");
    assert_eq!(p[1].name, "security_checker");
    assert_eq!(p[1].rows.len(), 2);
    assert_eq!(p[1].rows[0].agent_type, AgentType::Agent);
    assert_eq!(p[1].rows[0].files, "role:system:security_check.poml;role:user:get_files.poml");
    assert_eq!(p[1].rows[0].max_iterations, 3);
    assert_eq!(p[1].rows[1].agent_type, AgentType::ParallelAgent);
    assert_eq!(p[1].rows[1].files, "role:ai:summary.poml");
    assert_eq!(p[1].rows[1].max_iterations, 2);
}

#[test]
fn inserted_workflow_is_found_under_its_name() {
    let mut set = WorkflowSet::new();
    for cfg in preset_workflows() {
        set.insert(cfg);
    }
    let before = set.len();
    let other = set.find("security_checker");
    let mut changed = default_workflow();
    changed.maximum_traversals = 7;
    set.insert(changed);
    assert_eq!(set.len(), before);
    let i = set.find("default").unwrap();
    assert_eq!(set.at(i).maximum_traversals, 7);
    assert_eq!(set.find("security_checker"), other);
    let mut fresh = default_workflow();
    fresh.name = "fresh".to_string();
    set.insert(fresh);
    assert_eq!(set.len(), before + 1);
    assert_eq!(set.find("fresh"), Some(before));
}

#[test]
fn agents_are_counted_by_their_lines() {
    let text = "workflow:w\nagent_1: Agent\nfiles:\"a\"\n  agent_2: Validator  \nagent_3 no colon\nagent_4:Parallel\n";
    let cfg = parse_nm(text);
    assert_eq!(cfg.rows.len(), 3);
    assert_eq!(cfg.active_agent_index, 0);
    let cfg = parse_nm("workflow:w\nnothing here\n");
    assert_eq!(cfg.rows.len(), 1);
    assert_eq!(cfg.rows[0].agent_type, AgentType::Agent);
}

#[test]
fn working_dir_and_limit_are_not_written() {
    let mut cfg = default_workflow();
    cfg.working_dir = "/tmp\nagent_9: Agent\r\nworkflow:other".to_string();
    cfg.maximum_traversals = 4;
    let text = nm_text(&cfg);
    assert_eq!(text, "workflow:default\nagent_1: Agent\nfiles:\"\"\nmaximum_iterations:3\n");
    let back = parse_nm(&text);
    assert_eq!(back.name, cfg.name);
    assert_eq!(back.rows.len(), cfg.rows.len());
    assert_eq!(back.rows[0].files, cfg.rows[0].files);
    assert_eq!(back.working_dir, ".");
    assert_eq!(back.maximum_traversals, 10);
}
