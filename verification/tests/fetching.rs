use clash_launcher::errors::LauncherError;
use clash_launcher::fetch::{
    client_archive_path, join_all, plan_downloads, server_archive_path, staging_dir,
    StreamSink,
};

fn b(s: &str) -> Vec<u8> {
    s.as_bytes().to_vec()
}

#[test]
fn staging_layout() {
    assert_eq!(staging_dir(), b("updates"));
    assert_eq!(client_archive_path(), b("updates/client.tar.gz"));
    assert_eq!(server_archive_path(), b("updates/server.tar.gz"));
}

#[test]
fn download_plan_has_disjoint_destinations() {
    let tasks = plan_downloads(b("https://example.test/c"), b("https://example.test/s"));
    assert_eq!(tasks.len(), 2);
    assert_eq!(tasks[0].url, b("https://example.test/c"));
    assert_eq!(tasks[0].destination, b("updates/client.tar.gz"));
    assert_eq!(tasks[1].url, b("https://example.test/s"));
    assert_eq!(tasks[1].destination, b("updates/server.tar.gz"));
    assert_ne!(tasks[0].destination, tasks[1].destination);
}

#[test]
fn sink_round_trip_is_chunking_independent() {
    let source: Vec<u8> = (0u16..1000).map(|i| (i % 251) as u8).collect();
    for chunk_size in [1usize, 7, 64, 1000] {
        let mut sink = StreamSink::new();
        for chunk in source.chunks(chunk_size) {
            sink.append_chunk(&chunk.to_vec());
        }
        sink.finish();
        let artifact = sink.into_artifact().expect("finished sink yields artifact");
        assert_eq!(artifact, source);
    }
}

#[test]
fn unfinished_sink_yields_no_artifact() {
    let mut sink = StreamSink::new();
    sink.append_chunk(&b("partial data"));
    assert_eq!(sink.into_artifact(), None);
}

#[test]
fn empty_download_round_trips() {
    let mut sink = StreamSink::new();
    sink.finish();
    assert_eq!(sink.into_artifact(), Some(Vec::new()));
}

#[test]
fn join_all_succeeds_only_when_every_task_did() {
    assert_eq!(join_all(vec![Ok(()), Ok(())]), Ok(()));
    assert_eq!(join_all(vec![]), Ok(()));
}

#[test]
fn join_all_reports_first_failure() {
    let r = join_all(vec![
        Ok(()),
        Err(LauncherError::IOError {
            path: b("updates/client.tar.gz"),
        }),
        Err(LauncherError::NetworkError),
    ]);
    assert_eq!(
        r,
        Err(LauncherError::IOError {
            path: b("updates/client.tar.gz"),
        })
    );
}
