use neonmachines::nm_config::{preset_workflows, AgentRow, AgentType, WorkflowConfig};
use neonmachines::runner::{
    generate_mcp_readme, generate_mcp_template, generate_tool_template, history_request_text,
    next_traversal, run_start_text, split_entries, template_action, template_created_text,
    template_failed_text, traversal_result_text, traversal_start_text, workflow_plan,
    TemplateAction, WorkflowRun, MCP_ENTRY_SCRIPT,
};

fn expected_mcp(name: &str) -> String {
    format!(r#"{{
  "name": "{}",
  "version": "1.0.0",
  "description": "A sample MCP extension for {}",
  "author": "Your Name",
  "entry_point": "main.py",
  "dependencies": [],
  "tools": [
    {{
      "name": "{}_tool",
      "description": "A sample tool for {}",
      "parameters": {{
        "required": ["input"],
        "optional": ["option"],
        "types": {{
          "input": "string",
          "option": "string"
        }}
      }},
      "input_schema": {{
        "type": "object",
        "properties": {{
          "input": {{
            "type": "string",
            "description": "Input text for processing"
          }},
          "option": {{
            "type": "string",
            "description": "Optional parameter"
          }}
        }},
        "required": ["input"]
      }},
      "output_schema": {{
        "type": "object",
        "properties": {{
          "result": {{
            "type": "string",
            "description": "Processing result"
          }}
        }},
        "required": ["result"]
      }}
    }}
  ],
  "capabilities": {{
    "model_control": true,
    "tool_integration": true,
    "file_operations": false,
    "system_access": false
  }}
}}"#, name, name, name, name)
}

fn expected_tool(name: &str) -> String {
    format!(r#"name: {name}_tool
description: A sample tool for {name}

prompt: |
  You are a helpful assistant that processes user input.
  
  Input: {{input}}
  Option: {{option}}
  
  Please process this input and provide a helpful response.

input_variables:
  - name: input
    description: "Input text for processing"
    required: true
  - name: option
    description: "Optional parameter"
    required: false

output_format: |
  {{result}}

examples:
  - input: "Hello world"
    output: "{{result: \"Processed: Hello world\"}}"
  - input: "Test input"
    option: "with option"
    output: "{{result: \"Processed with option: Test input\"}}"
"#, name = name)
}

#[test]
fn templates_match_the_sample_files() {
    assert_eq!(generate_mcp_template("weather"), expected_mcp("weather"));
    assert_eq!(generate_tool_template("summarize"), expected_tool("summarize"));
    assert!(generate_mcp_template("x").contains("\"name\": \"x_tool\""));
}

#[test]
fn readme_is_titled_with_the_last_path_piece() {
    let r = generate_mcp_readme("extensions/ext_demo");
    assert!(r.starts_with("# ext_demo MCP Extension\n\nThis is a sample MCP extension for ext_demo.\n"));
    assert!(r.ends_with("- `README.md` - This file\n"));
    assert!(generate_mcp_readme("plain").starts_with("# plain MCP"));
    assert!(MCP_ENTRY_SCRIPT.starts_with("#!/usr/bin/env python3\n"));
}

#[test]
fn template_actions_by_kind() {
    match template_action("mcp", "demo") {
        TemplateAction::Extension { dir, metadata } => {
            assert_eq!(dir, "extensions/ext_demo");
            assert_eq!(metadata, expected_mcp("demo"));
        }
        _ => panic!("expected an extension"),
    }
    match template_action("tool", "demo") {
        TemplateAction::Tool { path, content } => {
            assert_eq!(path, "prompts/demo_tool.poml");
            assert_eq!(content, expected_tool("demo"));
        }
        _ => panic!("expected a tool"),
    }
    match template_action("widget", "demo") {
        TemplateAction::Unknown { message } => assert_eq!(message, "Unknown template type: widget"),
        _ => panic!("expected a report"),
    }
    assert_eq!(
        template_created_text(true, "demo", "extensions/ext_demo"),
        "MCP template 'demo' created at extensions/ext_demo"
    );
    assert_eq!(
        template_created_text(false, "demo", "prompts/demo_tool.poml"),
        "Tool template 'demo' created at prompts/demo_tool.poml"
    );
    assert_eq!(template_failed_text(true, "no space"), "Failed to create MCP template: no space");
    assert_eq!(template_failed_text(false, "no space"), "Failed to create tool template: no space");
}

#[test]
fn route_marker_names_the_next_node() {
    let r = next_traversal(0, "result text\n__ROUTE__= 2 ", 3);
    assert_eq!(r, Some((2, "result text".to_string())));
}

#[test]
fn the_last_marker_counts() {
    let r = next_traversal(0, "a\n__ROUTE__=1\nb\n__ROUTE__=0", 3);
    assert_eq!(r, Some((0, "a\n__ROUTE__=1\nb".to_string())));
}

#[test]
fn route_minus_one_ends_the_run() {
    assert_eq!(next_traversal(0, "done\n__ROUTE__=-1", 3), None);
}

#[test]
fn without_a_route_the_run_goes_on_to_the_next_node() {
    assert_eq!(next_traversal(0, "out", 2), Some((1, "out".to_string())));
    assert_eq!(next_traversal(1, "out", 2), None);
    assert_eq!(next_traversal(0, "x\n__ROUTE__=later", 2), Some((1, "x\n__ROUTE__=later".to_string())));
    assert_eq!(next_traversal(-3, "out", 2), None);
}

fn config(rows: usize, max: usize) -> WorkflowConfig {
    let mut v: Vec<AgentRow> = Vec::new();
    for _ in 0..rows {
        v.push(AgentRow {
            agent_type: AgentType::Agent,
            files: String::new(),
            max_iterations: 3,
            on_success: None,
            on_failure: None,
        });
    }
    WorkflowConfig {
        name: "w".to_string(),
        rows: v,
        active_agent_index: 0,
        working_dir: ".".to_string(),
        maximum_traversals: max,
    }
}

#[test]
fn a_run_stops_at_its_traversal_limit() {
    let cfg = config(2, 3);
    let mut run = WorkflowRun::start(&cfg, "go", None);
    let mut visits = 0;
    while let Some((node, input)) = run.pending() {
        if visits == 0 {
            assert_eq!(node, 0);
            assert_eq!(input, "go");
        }
        visits += 1;
        run.record_output("again\n__ROUTE__=0");
    }
    assert_eq!(visits, 3);
    assert_eq!(run.traversals(), 3);
}

#[test]
fn a_run_walks_the_nodes_in_order() {
    let cfg = config(3, 10);
    let mut run = WorkflowRun::start(&cfg, "p", Some(1));
    let (n, _) = run.pending().unwrap();
    assert_eq!(n, 1);
    run.record_output("from one");
    let (n, input) = run.pending().unwrap();
    assert_eq!(n, 2);
    assert_eq!(input, "from one");
    run.record_output("from two");
    assert!(run.pending().is_none());
    assert_eq!(run.traversals(), 2);
}

#[test]
fn plan_names_nodes_and_routes() {
    let mut cfg = config(2, 10);
    cfg.rows[0].files = " role:system:a.poml ; role:user:b.poml".to_string();
    cfg.rows[0].on_success = Some(1);
    cfg.rows[1].agent_type = AgentType::Validator;
    cfg.rows[1].on_failure = Some(0);
    let plan = workflow_plan(&cfg);
    assert_eq!(plan.len(), 2);
    assert_eq!(plan[0].id, 0);
    assert_eq!(plan[0].name, "Agent1");
    assert!(!plan[0].validator);
    assert_eq!(plan[0].files, vec!["role:system:a.poml".to_string(), "role:user:b.poml".to_string()]);
    assert_eq!(plan[0].next, Some(1));
    assert_eq!(plan[1].name, "ValidatorAgent2");
    assert!(plan[1].validator);
    assert_eq!(plan[1].next, None);
    assert_eq!(plan[1].success_route, -1);
    assert_eq!(plan[1].failure_route, 0);
    assert_eq!(plan[1].files, vec!["".to_string()]);
}

#[test]
fn entries_are_split_and_trimmed() {
    assert_eq!(split_entries("a; b ;c;"), vec!["a".to_string(), "b".to_string(), "c".to_string(), "".to_string()]);
    assert_eq!(split_entries(""), vec!["".to_string()]);
    assert_eq!(preset_workflows().len(), 2);
}

#[test]
fn run_log_lines() {
    assert_eq!(run_start_text("w", "hi"), "Starting workflow 'w' with prompt: hi");
    assert_eq!(traversal_start_text(2, 1, "x"), "Traversal 2: Starting at node 1 with input: x");
    assert_eq!(traversal_result_text(1, 0, "out"), "Traversal 1 (node 0):\nout");
    assert_eq!(history_request_text("w", Some(3)), "Showing history for workflow 'w', agent Some(3)");
    assert_eq!(history_request_text("w", None), "Showing history for workflow 'w', agent None");
    assert_eq!(traversal_start_text(1, -4, ""), "Traversal 1: Starting at node -4 with input: ");
}
