use pulse::app::{App, InputMode, Panel};
use pulse::controller::{Command, Key};
use pulse::models::{Container, ContainerStatus, ContainerType, Node, NodeStatus};
use pulse::sort::SortField;

fn create_test_node(name: &str, status: NodeStatus, cpu: u64) -> Node {
    Node {
        name: name.to_string(),
        status,
        cpu_usage: cpu,
        memory_used: 512,
        memory_total: 1024,
        uptime: 3600,
    }
}

fn create_test_container(name: &str, node: &str, status: ContainerStatus, cpu: u64) -> Container {
    Container {
        vmid: 100,
        name: name.to_string(),
        node: node.to_string(),
        container_type: ContainerType::LXC,
        status,
        cpu_usage: cpu,
        memory_used: 256,
        memory_max: 1024,
        uptime: 3600,
    }
}

fn names(nodes: &[Node]) -> Vec<String> {
    nodes.iter().map(|n| n.name.clone()).collect()
}

#[test]
fn test_app_new() {
    let app = App::new();
    assert!(app.running);
    assert_eq!(app.active_panel, Panel::Nodes);
    assert!(app.nodes.is_empty());
    assert!(app.containers.is_empty());
    assert_eq!(app.node_index, 0);
    assert_eq!(app.container_index, 0);
    assert!(app.error_message.is_none());
    assert_eq!(app.sort_field, SortField::Name);
    assert!(app.sort_ascending);
    assert_eq!(app.input_mode, InputMode::Normal);
    assert!(app.search_query.is_empty());
    assert!(!app.show_help);
}

#[test]
fn test_next_panel() {
    let mut app = App::new();
    assert_eq!(app.active_panel, Panel::Nodes);
    app.next_panel();
    assert_eq!(app.active_panel, Panel::Containers);
    app.next_panel();
    assert_eq!(app.active_panel, Panel::Nodes);
}

#[test]
fn test_select_next_nodes() {
    let mut app = App::new();
    app.nodes = vec![
        create_test_node("node1", NodeStatus::Online, 1000),
        create_test_node("node2", NodeStatus::Online, 2000),
        create_test_node("node3", NodeStatus::Online, 3000),
    ];
    app.active_panel = Panel::Nodes;
    assert_eq!(app.node_index, 0);
    app.select_next();
    assert_eq!(app.node_index, 1);
    app.select_next();
    assert_eq!(app.node_index, 2);
    app.select_next();
    assert_eq!(app.node_index, 2);
}

#[test]
fn test_select_previous_nodes() {
    let mut app = App::new();
    app.nodes = vec![
        create_test_node("node1", NodeStatus::Online, 1000),
        create_test_node("node2", NodeStatus::Online, 2000),
    ];
    app.active_panel = Panel::Nodes;
    app.node_index = 1;
    app.select_previous();
    assert_eq!(app.node_index, 0);
    app.select_previous();
    assert_eq!(app.node_index, 0);
}

#[test]
fn test_select_next_containers() {
    let mut app = App::new();
    app.containers = vec![
        create_test_container("ct1", "node1", ContainerStatus::Running, 1000),
        create_test_container("ct2", "node1", ContainerStatus::Running, 2000),
    ];
    app.active_panel = Panel::Containers;
    assert_eq!(app.container_index, 0);
    app.select_next();
    assert_eq!(app.container_index, 1);
}

#[test]
fn selection_on_empty_view_does_not_move() {
    let mut app = App::new();
    app.select_next();
    assert_eq!(app.node_index, 0);
    app.select_previous();
    assert_eq!(app.node_index, 0);
    app.nodes = vec![create_test_node("alpha", NodeStatus::Online, 0)];
    app.search_query = "zzz".to_string();
    app.node_index = 3;
    app.select_previous();
    assert_eq!(app.node_index, 3);
    app.select_next();
    assert_eq!(app.node_index, 3);
}

#[test]
fn selection_follows_the_filtered_view() {
    let mut app = App::new();
    app.nodes = vec![
        create_test_node("alpha", NodeStatus::Online, 0),
        create_test_node("beta", NodeStatus::Online, 0),
        create_test_node("alphabeta", NodeStatus::Online, 0),
    ];
    app.search_query = "alpha".to_string();
    app.select_next();
    app.select_next();
    assert_eq!(app.node_index, 1);
    assert_eq!(app.selected_node().unwrap().name, "alphabeta");
}

#[test]
fn test_sort_field_cycle() {
    assert_eq!(SortField::Name.next(), SortField::Status);
    assert_eq!(SortField::Status.next(), SortField::Cpu);
    assert_eq!(SortField::Cpu.next(), SortField::Memory);
    assert_eq!(SortField::Memory.next(), SortField::Name);
}

#[test]
fn sort_cycle_returns_after_four_steps() {
    for f in [SortField::Name, SortField::Status, SortField::Cpu, SortField::Memory] {
        assert_eq!(f.next().next().next().next(), f);
    }
}

#[test]
fn test_sort_field_label() {
    assert_eq!(SortField::Name.label(), "Name");
    assert_eq!(SortField::Status.label(), "Status");
    assert_eq!(SortField::Cpu.label(), "CPU");
    assert_eq!(SortField::Memory.label(), "Memory");
}

#[test]
fn test_cycle_sort() {
    let mut app = App::new();
    assert_eq!(app.sort_field, SortField::Name);
    app.cycle_sort();
    assert_eq!(app.sort_field, SortField::Status);
    app.cycle_sort();
    assert_eq!(app.sort_field, SortField::Cpu);
}

#[test]
fn test_toggle_sort_order() {
    let mut app = App::new();
    assert!(app.sort_ascending);
    app.toggle_sort_order();
    assert!(!app.sort_ascending);
    app.toggle_sort_order();
    assert!(app.sort_ascending);
}

#[test]
fn sorting_by_each_field() {
    let mut app = App::new();
    let mut a = create_test_node("b", NodeStatus::Offline, 500);
    a.memory_used = 900;
    let mut b = create_test_node("a", NodeStatus::Online, 9000);
    b.memory_used = 100;
    let c = create_test_node("c", NodeStatus::Online, 2000);
    app.nodes = vec![a, b, c];
    app.toggle_sort_order();
    app.toggle_sort_order();
    assert_eq!(names(&app.nodes), vec!["a", "b", "c"]);
    app.cycle_sort();
    assert_eq!(names(&app.nodes), vec!["a", "c", "b"]);
    app.cycle_sort();
    assert_eq!(names(&app.nodes), vec!["b", "c", "a"]);
    app.cycle_sort();
    assert_eq!(names(&app.nodes), vec!["a", "c", "b"]);
    app.toggle_sort_order();
    assert_eq!(names(&app.nodes), vec!["b", "c", "a"]);
}

#[test]
fn toggling_direction_twice_restores_order_with_ties() {
    let mut app = App::new();
    app.sort_field = SortField::Status;
    app.nodes = vec![
        create_test_node("n1", NodeStatus::Online, 0),
        create_test_node("n2", NodeStatus::Online, 0),
        create_test_node("n3", NodeStatus::Offline, 0),
        create_test_node("n4", NodeStatus::Offline, 0),
    ];
    app.toggle_sort_order();
    assert_eq!(names(&app.nodes), vec!["n3", "n4", "n1", "n2"]);
    app.toggle_sort_order();
    assert_eq!(names(&app.nodes), vec!["n1", "n2", "n3", "n4"]);
}

#[test]
fn test_search_mode() {
    let mut app = App::new();
    assert_eq!(app.input_mode, InputMode::Normal);
    app.enter_search_mode();
    assert_eq!(app.input_mode, InputMode::Search);
    app.exit_search_mode();
    assert_eq!(app.input_mode, InputMode::Normal);
}

#[test]
fn test_search_query() {
    let mut app = App::new();
    app.push_search_char('t');
    app.push_search_char('e');
    app.push_search_char('s');
    app.push_search_char('t');
    assert_eq!(app.search_query, "test");
    app.pop_search_char();
    assert_eq!(app.search_query, "tes");
    app.clear_search();
    assert!(app.search_query.is_empty());
}

#[test]
fn query_edits_reset_both_selections() {
    let mut app = App::new();
    app.node_index = 2;
    app.container_index = 3;
    app.push_search_char('x');
    assert_eq!((app.node_index, app.container_index), (0, 0));
    app.node_index = 2;
    app.container_index = 3;
    app.pop_search_char();
    assert_eq!((app.node_index, app.container_index), (0, 0));
    app.node_index = 2;
    app.container_index = 3;
    app.pop_search_char();
    assert_eq!((app.node_index, app.container_index), (0, 0));
    assert_eq!(app.search_query, "");
    app.node_index = 2;
    app.container_index = 3;
    app.clear_search();
    assert_eq!((app.node_index, app.container_index), (0, 0));
}

#[test]
fn test_filtered_nodes() {
    let mut app = App::new();
    app.nodes = vec![
        create_test_node("alpha", NodeStatus::Online, 1000),
        create_test_node("beta", NodeStatus::Online, 2000),
        create_test_node("alphabeta", NodeStatus::Online, 3000),
    ];
    assert_eq!(app.filtered_nodes().len(), 3);
    app.search_query = "alpha".to_string();
    let filtered = app.filtered_nodes();
    assert_eq!(filtered.len(), 2);
    assert!(filtered.iter().any(|n| n.name == "alpha"));
    assert!(filtered.iter().any(|n| n.name == "alphabeta"));
}

#[test]
fn filter_ignores_case_of_query() {
    let mut app = App::new();
    app.nodes = vec![
        create_test_node("alpha", NodeStatus::Online, 0),
        create_test_node("beta", NodeStatus::Online, 0),
        create_test_node("alphabeta", NodeStatus::Online, 0),
    ];
    app.search_query = "ALPHA".to_string();
    let got: Vec<&str> = app.filtered_nodes().iter().map(|n| n.name.as_str()).collect();
    assert_eq!(got, vec!["alpha", "alphabeta"]);
    assert_eq!(app.nodes.len(), 3);
}

#[test]
fn test_filtered_containers_by_name() {
    let mut app = App::new();
    app.containers = vec![
        create_test_container("web-server", "node1", ContainerStatus::Running, 1000),
        create_test_container("database", "node1", ContainerStatus::Running, 2000),
        create_test_container("web-cache", "node2", ContainerStatus::Running, 3000),
    ];
    app.search_query = "web".to_string();
    let filtered = app.filtered_containers();
    assert_eq!(filtered.len(), 2);
}

#[test]
fn test_filtered_containers_by_node() {
    let mut app = App::new();
    app.containers = vec![
        create_test_container("ct1", "production", ContainerStatus::Running, 1000),
        create_test_container("ct2", "staging", ContainerStatus::Running, 2000),
        create_test_container("ct3", "production", ContainerStatus::Running, 3000),
    ];
    app.search_query = "prod".to_string();
    let filtered = app.filtered_containers();
    assert_eq!(filtered.len(), 2);
    assert!(filtered.iter().all(|c| c.node == "production"));
}

#[test]
fn test_search_case_insensitive() {
    let mut app = App::new();
    app.nodes = vec![create_test_node("ProductionNode", NodeStatus::Online, 1000)];
    app.search_query = "production".to_string();
    assert_eq!(app.filtered_nodes().len(), 1);
    app.search_query = "PRODUCTION".to_string();
    assert_eq!(app.filtered_nodes().len(), 1);
}

#[test]
fn test_nodes_summary() {
    let mut app = App::new();
    app.nodes = vec![
        create_test_node("node1", NodeStatus::Online, 1000),
        create_test_node("node2", NodeStatus::Offline, 0),
        create_test_node("node3", NodeStatus::Online, 3000),
    ];
    let (online, total) = app.nodes_summary();
    assert_eq!(online, 2);
    assert_eq!(total, 3);
}

#[test]
fn test_containers_summary() {
    let mut app = App::new();
    app.containers = vec![
        create_test_container("ct1", "node1", ContainerStatus::Running, 1000),
        create_test_container("ct2", "node1", ContainerStatus::Stopped, 0),
        create_test_container("ct3", "node1", ContainerStatus::Running, 3000),
        create_test_container("ct4", "node1", ContainerStatus::Stopped, 0),
    ];
    let (running, total) = app.containers_summary();
    assert_eq!(running, 2);
    assert_eq!(total, 4);
}

#[test]
fn test_selected_node() {
    let mut app = App::new();
    app.nodes = vec![
        create_test_node("node1", NodeStatus::Online, 1000),
        create_test_node("node2", NodeStatus::Online, 2000),
    ];
    app.node_index = 0;
    assert_eq!(app.selected_node().unwrap().name, "node1");
    app.node_index = 1;
    assert_eq!(app.selected_node().unwrap().name, "node2");
}

#[test]
fn test_selected_node_empty() {
    let app = App::new();
    assert!(app.selected_node().is_none());
}

#[test]
fn selected_container_follows_index() {
    let mut app = App::new();
    app.containers = vec![create_test_container("ct1", "node1", ContainerStatus::Running, 0)];
    assert_eq!(app.selected_container().unwrap().name, "ct1");
    app.container_index = 1;
    assert!(app.selected_container().is_none());
}

#[test]
fn test_quit() {
    let mut app = App::new();
    assert!(app.running);
    app.quit();
    assert!(!app.running);
}

#[test]
fn test_toggle_help() {
    let mut app = App::new();
    assert!(!app.show_help);
    app.toggle_help();
    assert!(app.show_help);
    app.toggle_help();
    assert!(!app.show_help);
}

#[test]
fn test_time_since_refresh_never() {
    let app = App::new();
    assert_eq!(app.time_since_refresh(), "never");
}

#[test]
fn help_overlay_swallows_the_next_key() {
    let mut app = App::new();
    app.show_help = true;
    assert_eq!(app.handle_key(Key::Char('q')), Command::Nothing);
    assert!(app.running);
    assert!(!app.show_help);
    app.show_help = true;
    assert_eq!(app.handle_key(Key::Char('r')), Command::Nothing);
    assert!(!app.show_help);
}

#[test]
fn keys_in_normal_mode() {
    let mut app = App::new();
    assert_eq!(app.handle_key(Key::Char('r')), Command::Refresh);
    assert_eq!(app.handle_key(Key::Tab), Command::Nothing);
    assert_eq!(app.active_panel, Panel::Containers);
    app.handle_key(Key::Char('s'));
    assert_eq!(app.sort_field, SortField::Status);
    app.handle_key(Key::Char('S'));
    assert!(!app.sort_ascending);
    app.handle_key(Key::Char('?'));
    assert!(app.show_help);
    app.handle_key(Key::Other);
    assert!(!app.show_help);
    app.handle_key(Key::Char('/'));
    assert_eq!(app.input_mode, InputMode::Search);
    app.handle_key(Key::Char('q'));
    assert!(app.running);
    assert_eq!(app.search_query, "q");
    app.handle_key(Key::Enter);
    assert_eq!(app.input_mode, InputMode::Normal);
    app.handle_key(Key::Esc);
    assert_eq!(app.search_query, "");
    app.handle_key(Key::Char('q'));
    assert!(!app.running);
}

#[test]
fn navigation_keys_are_inert_in_search_mode() {
    let mut app = App::new();
    app.nodes = vec![
        create_test_node("n1", NodeStatus::Online, 0),
        create_test_node("n2", NodeStatus::Online, 0),
    ];
    app.handle_key(Key::Char('/'));
    app.handle_key(Key::Down);
    app.handle_key(Key::Tab);
    assert_eq!(app.node_index, 0);
    assert_eq!(app.active_panel, Panel::Nodes);
    assert_eq!(app.handle_key(Key::Char('r')), Command::Nothing);
    app.handle_key(Key::Backspace);
    assert_eq!(app.search_query, "");
    app.handle_key(Key::Char('n'));
    app.handle_key(Key::Esc);
    assert_eq!(app.input_mode, InputMode::Normal);
    assert_eq!(app.search_query, "");
    app.handle_key(Key::Char('j'));
    assert_eq!(app.node_index, 1);
    app.handle_key(Key::Char('k'));
    assert_eq!(app.node_index, 0);
}
