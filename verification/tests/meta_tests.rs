use rtstore::error::RTStoreError;
use rtstore::meta_server::{
    MemoryNode, MetaServiceImpl, MetaServiceState, RtStoreNodeType, RtStoreTableDesc, Table,
};
use rtstore::schema::{RtStoreColumnDesc, RtStoreSchemaDesc};

fn create_simple_table_desc(tname: &str) -> RtStoreTableDesc {
    let col1 = RtStoreColumnDesc {
        name: "col1".to_string(),
        ctype: 0,
        null_allowed: true,
    };
    let schema = RtStoreSchemaDesc { columns: vec![col1], version: 1 };
    RtStoreTableDesc {
        names: vec![tname.to_string()],
        schema: Some(schema),
    }
}

#[test]
fn test_ping() {
    let meta = MetaServiceImpl::new();
    let result = meta.ping();
    if result.is_err() {
        panic!("should go error");
    }
}

#[test]
fn test_create_table_empty_desc() {
    let mut meta = MetaServiceImpl::new();
    let result = meta.create_table(&None);
    if result.is_ok() {
        panic!("should go error");
    }
}

#[test]
fn test_create_table() {
    let table_desc = Some(create_simple_table_desc("test.t1"));
    let mut meta = MetaServiceImpl::new();
    let result = meta.create_table(&table_desc);
    assert!(result.is_ok());
}

#[test]
fn test_create_table_twice_fails() {
    let table_desc = Some(create_simple_table_desc("test.t1"));
    let mut meta = MetaServiceImpl::new();
    assert!(meta.create_table(&table_desc).is_ok());
    match meta.create_table(&table_desc) {
        Err(RTStoreError::TableNamesExistError { name }) => {
            assert_eq!("test.t1", name);
        }
        _ => panic!("the same table id must not be registered twice"),
    }
}

#[test]
fn test_create_table_without_names_fails() {
    let desc = RtStoreTableDesc { names: vec![], schema: None };
    let mut state = MetaServiceState::new();
    match state.create_table(&desc) {
        Err(RTStoreError::TableInvalidNamesError) => {}
        _ => panic!("a descriptor without name parts has no table id"),
    }
}

#[test]
fn test_gen_id_joins_names_with_dots() -> Result<(), RTStoreError> {
    let desc = RtStoreTableDesc {
        names: vec!["db1".to_string(), "t1".to_string()],
        schema: None,
    };
    let id = Table::gen_id(&desc)?;
    assert_eq!("db1.t1", id);
    Ok(())
}

#[test]
fn test_add_memory_node_twice_fails() {
    let mut state = MetaServiceState::new();
    let node = MemoryNode::new("127.0.0.1:9791".to_string());
    assert!(state.add_memory_node("127.0.0.1:9791", &node).is_ok());
    match state.add_memory_node("127.0.0.1:9791", &node) {
        Err(RTStoreError::MemoryNodeExistError(endpoint)) => {
            assert_eq!("127.0.0.1:9791", endpoint);
        }
        _ => panic!("the same endpoint must not be registered twice"),
    }
}

#[test]
fn test_register_node_requires_memory_node() {
    let mut meta = MetaServiceImpl::new();
    let node = MemoryNode::new("127.0.0.1:9791".to_string());
    let wrong_type = RtStoreNodeType::KComputeNode.to_i32();
    match meta.register_node(wrong_type, "127.0.0.1:9791", Some(node)) {
        Err(RTStoreError::InvalidArgumentError(msg)) => {
            assert_eq!("memory node is required", msg);
        }
        _ => panic!("only memory nodes may register"),
    }
}

#[test]
fn test_register_node_unreachable_endpoint() {
    let mut meta = MetaServiceImpl::new();
    let mtype = RtStoreNodeType::KMemoryNode.to_i32();
    match meta.register_node(mtype, "127.0.0.1:9791", None) {
        Err(RTStoreError::NodeRPCError(endpoint)) => {
            assert_eq!("127.0.0.1:9791", endpoint);
        }
        _ => panic!("an unreachable node must be reported"),
    }
}

#[test]
fn test_register_node_ok() {
    let mut meta = MetaServiceImpl::new();
    let node = MemoryNode::new("127.0.0.1:9791".to_string());
    let mtype = RtStoreNodeType::KMemoryNode.to_i32();
    assert!(meta.register_node(mtype, "127.0.0.1:9791", Some(node)).is_ok());
}
