use std::sync::Arc;

use zagent::extras::mcp::{McpClientHandle, McpClientManager};

fn names<H>(m: &McpClientManager<H>) -> Vec<String> {
    m.handles.iter().map(|h| h.server_name.clone()).collect()
}

#[test]
fn failed_connections_are_dropped_in_order() {
    let attempts: Vec<(String, Result<u32, String>)> = vec![
        ("files".to_string(), Ok(1)),
        ("down".to_string(), Err("refused".to_string())),
        ("web".to_string(), Ok(3)),
        ("slow".to_string(), Err("timeout".to_string())),
    ];
    let manager = McpClientManager::connect_all(attempts);
    assert_eq!(names(&manager), vec!["files", "web"]);
    let peers: Vec<u32> = manager.handles.iter().map(|h| h.peer).collect();
    assert_eq!(peers, vec![1, 3]);
}

#[test]
fn no_attempts_no_handles() {
    let manager: McpClientManager<u32> =
        McpClientManager::connect_all(Vec::<(String, Result<u32, ()>)>::new());
    assert!(manager.handles.is_empty());
}

#[test]
fn tools_are_tagged_with_their_server_and_failed_listings_skipped() {
    let manager = McpClientManager {
        handles: vec![
            McpClientHandle { server_name: "files".to_string(), peer: 'a' },
            McpClientHandle { server_name: "broken".to_string(), peer: 'b' },
            McpClientHandle { server_name: "web".to_string(), peer: 'c' },
        ],
    };
    let ctx = Arc::new("ctx");
    let listings: Vec<Result<Vec<&str>, String>> = vec![
        Ok(vec!["read", "search"]),
        Err("listing failed".to_string()),
        Ok(vec!["fetch"]),
    ];
    let tools = manager.collect_tools(&ctx, listings);
    assert!(tools.iter().all(|t| Arc::ptr_eq(&t.ctx, &ctx)));
    let got: Vec<(String, &str)> =
        tools.into_iter().map(|t| (t.server_name, t.definition)).collect();
    assert_eq!(
        got,
        vec![
            ("files".to_string(), "read"),
            ("files".to_string(), "search"),
            ("web".to_string(), "fetch"),
        ]
    );
}

#[test]
fn server_with_no_tools_offers_none() {
    let manager = McpClientManager {
        handles: vec![McpClientHandle { server_name: "empty".to_string(), peer: () }],
    };
    let listings: Vec<Result<Vec<u8>, ()>> = vec![Ok(vec![])];
    assert!(manager.collect_tools(&Arc::new(0u8), listings).is_empty());
}
