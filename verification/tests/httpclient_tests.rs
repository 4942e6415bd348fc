use entrusted::httpclient::{result_path, server_address, server_url, tracking_action, AppConfig, DownloadResponse, TrackingAction, UploadResponse};

#[test]
fn client_settings_default_to_local_server() {
    let c = AppConfig::default();
    assert_eq!(c.host, "localhost");
    assert_eq!(c.port, 13000);
    assert_eq!(c.file_suffix, "dgz");
    assert!(c.ocr_lang.is_none());
}

#[test]
fn server_addresses() {
    assert_eq!(server_address("localhost", 13000), "localhost:13000");
    assert_eq!(server_url("localhost:13000", "/upload"), "http://localhost:13000/upload");
}

#[test]
fn notifications_decide_what_the_client_does() {
    assert_eq!(tracking_action("processing_update"), TrackingAction::ShowProgress);
    assert_eq!(tracking_action("processing_success"), TrackingAction::Download);
    assert_eq!(tracking_action("processing_failure"), TrackingAction::Fail);
    assert_eq!(tracking_action("ping"), TrackingAction::Ignore);
}

#[test]
fn results_are_written_beside_the_input() {
    assert_eq!(result_path(None, "/out", "/in/doc.pdf", "dgz"), Some("/out/doc-dgz.pdf".to_string()));
    assert_eq!(result_path(Some("/x.pdf".to_string()), "/out", "/in/doc.pdf", "dgz"), Some("/x.pdf".to_string()));
    let u = UploadResponse { id: "1".to_string(), tracking_uri: "/t".to_string() };
    let d = DownloadResponse { id: u.id.clone(), data: "d".to_string() };
    assert_eq!(d.id, "1");
}
