use std::time::Duration;

use ztunnel_conn::addr::{IpAddr, SocketAddr};
use ztunnel_conn::connection_manager::ConnectionManager;
use ztunnel_conn::rbac::{Connection, ProxyRbacContext};

fn runtime() -> tokio::runtime::Runtime {
    tokio::runtime::Builder::new_multi_thread()
        .enable_all()
        .build()
        .unwrap()
}

fn ctx(src_last: u8) -> ProxyRbacContext {
    ProxyRbacContext {
        conn: Connection {
            src_identity: None,
            src: SocketAddr::new(IpAddr::V4(192, 168, 0, src_last), 80),
            dst_network: "".to_string(),
            dst: SocketAddr::new(IpAddr::V4(192, 168, 0, 2), 8080),
        },
        dest_workload_info: None,
    }
}

async fn assert_close(c: drain::Watch) {
    let res = tokio::time::timeout(Duration::from_secs(1), c.signaled()).await;
    assert!(res.is_ok())
}

async fn close(cm: &mut ConnectionManager, c: &ProxyRbacContext) {
    if let Some(signal) = cm.close(c) {
        signal.drain().await;
    }
}

#[test]
fn test_connection_manager_close() {
    runtime().block_on(async {
        let mut connection_manager = ConnectionManager::default();
        assert_eq!(connection_manager.len(), 0);
        assert_eq!(connection_manager.connections().len(), 0);

        let rbac_ctx1 = ctx(1);

        let close1 = connection_manager.track(&rbac_ctx1);
        assert!(close1.is_none());
        assert_eq!(connection_manager.len(), 0);
        assert_eq!(connection_manager.connections().len(), 0);

        connection_manager.register(&rbac_ctx1);
        assert_eq!(connection_manager.len(), 1);
        assert_eq!(connection_manager.connections().len(), 1);
        assert_eq!(connection_manager.connections(), vec!(rbac_ctx1.clone()));

        let close1 = connection_manager
            .track(&rbac_ctx1)
            .expect("should not be None");

        assert_eq!(connection_manager.len(), 1);
        assert_eq!(connection_manager.connections().len(), 1);
        assert_eq!(connection_manager.connections(), vec!(rbac_ctx1.clone()));

        let another_conn1 = rbac_ctx1.clone();
        let another_close1 = connection_manager
            .track(&another_conn1)
            .expect("should not be None");

        assert_eq!(connection_manager.len(), 1);
        assert_eq!(connection_manager.connections().len(), 1);
        assert_eq!(connection_manager.connections(), vec!(rbac_ctx1.clone()));

        let rbac_ctx2 = ctx(3);

        connection_manager.register(&rbac_ctx2);
        let close2 = connection_manager
            .track(&rbac_ctx2)
            .expect("should not be None");

        assert_eq!(connection_manager.len(), 2);
        assert_eq!(connection_manager.connections().len(), 2);
        let mut connections = connection_manager.connections();
        connections.sort();
        assert_eq!(connections, vec![rbac_ctx1.clone(), rbac_ctx2.clone()]);

        let t1 = tokio::spawn(assert_close(close1));
        let t2 = tokio::spawn(assert_close(another_close1));
        close(&mut connection_manager, &rbac_ctx1).await;
        t1.await.unwrap();
        t2.await.unwrap();
        assert_eq!(connection_manager.len(), 1);
        assert_eq!(connection_manager.connections().len(), 1);
        assert_eq!(connection_manager.connections(), vec!(rbac_ctx2.clone()));

        let t3 = tokio::spawn(assert_close(close2));
        close(&mut connection_manager, &rbac_ctx2).await;
        t3.await.unwrap();
        assert_eq!(connection_manager.len(), 0);
        assert_eq!(connection_manager.connections().len(), 0);
    });
}

#[test]
fn test_connection_manager_release() {
    let mut connection_manager = ConnectionManager::default();
    assert_eq!(connection_manager.len(), 0);
    assert_eq!(connection_manager.connections().len(), 0);

    let conn1 = ctx(1);
    let conn2 = ctx(3);
    let another_conn1 = conn1.clone();

    connection_manager.register(&conn1);

    let close1 = connection_manager
        .track(&conn1)
        .expect("should not be None");
    let another_close1 = connection_manager
        .track(&another_conn1)
        .expect("should not be None");
    assert_eq!(connection_manager.len(), 1);
    assert_eq!(connection_manager.connections().len(), 1);
    assert_eq!(connection_manager.connections(), vec!(conn1.clone()));

    drop(another_close1);
    connection_manager.release(&another_conn1);
    assert_eq!(connection_manager.len(), 1);
    assert_eq!(connection_manager.connections().len(), 1);
    assert_eq!(connection_manager.connections(), vec!(conn1.clone()));

    connection_manager.register(&conn2);
    let close2 = connection_manager
        .track(&conn2)
        .expect("should not be None");
    assert_eq!(connection_manager.len(), 2);
    assert_eq!(connection_manager.connections().len(), 2);
    let mut connections = connection_manager.connections();
    connections.sort();
    assert_eq!(connections, vec![conn1.clone(), conn2.clone()]);

    drop(close1);
    connection_manager.release(&conn1);
    assert_eq!(connection_manager.len(), 1);
    assert_eq!(connection_manager.connections().len(), 1);
    assert_eq!(connection_manager.connections(), vec!(conn2.clone()));

    let another_conn2 = conn2.clone();
    let another_close2 = connection_manager
        .track(&another_conn2)
        .expect("should not be None");
    drop(close2);
    connection_manager.release(&conn2);
    assert_eq!(connection_manager.len(), 1);
    assert_eq!(connection_manager.connections().len(), 1);
    assert_eq!(
        connection_manager.connections(),
        vec!(another_conn2.clone())
    );

    drop(another_close2);
    connection_manager.release(&another_conn2);
    assert_eq!(connection_manager.len(), 0);
    assert_eq!(connection_manager.connections().len(), 0);
}

#[test]
fn refcount_follows_tracks_and_releases() {
    let mut cm = ConnectionManager::new();
    let c = ctx(1);
    cm.register(&c);
    assert_eq!(cm.refcount(&c), Some(0));
    let w1 = cm.track(&c).unwrap();
    let w2 = cm.track(&c).unwrap();
    let w3 = cm.track(&c).unwrap();
    assert_eq!(cm.refcount(&c), Some(3));
    cm.release(&c);
    assert_eq!(cm.refcount(&c), Some(2));
    cm.register(&c);
    assert_eq!(cm.refcount(&c), Some(2));
    cm.release(&c);
    assert_eq!(cm.refcount(&c), Some(1));
    cm.release(&c);
    assert_eq!(cm.refcount(&c), None);
    drop((w1, w2, w3));
}

#[test]
fn double_register_keeps_refcount() {
    let mut cm = ConnectionManager::new();
    let c = ctx(1);
    cm.register(&c);
    let _w = cm.track(&c).unwrap();
    cm.register(&c);
    assert_eq!(cm.len(), 1);
    assert_eq!(cm.refcount(&c), Some(1));
}

#[test]
fn release_on_absent_key_is_noop() {
    let mut cm = ConnectionManager::new();
    let c1 = ctx(1);
    let c2 = ctx(3);
    cm.register(&c1);
    cm.release(&c2);
    assert_eq!(cm.len(), 1);
    assert_eq!(cm.refcount(&c1), Some(0));
    assert_eq!(cm.refcount(&c2), None);
}

#[test]
fn register_then_release_removes_entry() {
    let mut cm = ConnectionManager::new();
    let c = ctx(1);
    cm.register(&c);
    cm.release(&c);
    assert_eq!(cm.len(), 0);
    assert!(cm.connections().is_empty());
}

#[test]
fn track_on_unregistered_key_is_none() {
    let mut cm = ConnectionManager::new();
    assert!(cm.track(&ctx(1)).is_none());
    assert_eq!(cm.len(), 0);
}

#[test]
fn close_on_unregistered_key_returns_nothing() {
    let mut cm = ConnectionManager::new();
    cm.register(&ctx(3));
    assert!(cm.close(&ctx(1)).is_none());
    assert_eq!(cm.len(), 1);
}

#[test]
fn drain_without_subscribers_completes_promptly() {
    runtime().block_on(async {
        let mut cm = ConnectionManager::new();
        let c = ctx(1);
        cm.register(&c);
        let signal = cm.close(&c).expect("registered");
        let res = tokio::time::timeout(Duration::from_secs(1), signal.drain()).await;
        assert!(res.is_ok());
        assert_eq!(cm.len(), 0);
    });
}

#[test]
fn drain_waits_for_every_watcher() {
    runtime().block_on(async {
        let mut cm = ConnectionManager::new();
        let c = ctx(1);
        cm.register(&c);
        let w = cm.track(&c).unwrap();
        let signal = cm.close(&c).unwrap();
        let mut drained = tokio::spawn(signal.drain());
        let early = tokio::time::timeout(Duration::from_millis(100), &mut drained).await;
        assert!(early.is_err());
        drop(w);
        let res = tokio::time::timeout(Duration::from_secs(1), drained).await;
        assert!(res.is_ok());
    });
}

#[test]
fn track_after_close_is_none() {
    runtime().block_on(async {
        let mut cm = ConnectionManager::new();
        let c = ctx(1);
        cm.register(&c);
        let res = tokio::time::timeout(Duration::from_secs(1), close(&mut cm, &c)).await;
        assert!(res.is_ok());
        assert!(cm.track(&c).is_none());
    });
}

#[test]
fn connections_dump_omits_workload_info() {
    let mut cm = ConnectionManager::new();
    let mut c = ctx(1);
    c.dest_workload_info = Some(ztunnel_conn::rbac::WorkloadInfo {
        name: "w".to_string(),
        namespace: "default".to_string(),
        service_account: "sa".to_string(),
    });
    cm.register(&c);
    assert_eq!(cm.connections_dump(), vec![c.conn.clone()]);
    assert_eq!(cm.connections(), vec![c.clone()]);
}

#[test]
fn contexts_differing_in_identity_are_distinct() {
    let mut cm = ConnectionManager::new();
    let c1 = ctx(1);
    let mut c2 = ctx(1);
    c2.conn.src_identity = Some(ztunnel_conn::rbac::Identity {
        trust_domain: "cluster.local".to_string(),
        namespace: "default".to_string(),
        service_account: "sa".to_string(),
    });
    cm.register(&c1);
    cm.register(&c2);
    assert_eq!(cm.len(), 2);
    cm.register(&c2.clone());
    assert_eq!(cm.len(), 2);
}
