use axum::http::{HeaderMap, HeaderName, HeaderValue, StatusCode};
use tempfile::tempdir;

use sikap_file_storage::config::AppConfig;
use sikap_file_storage::handlers::delete::{delete_file, DeleteResult, DeleteStatus, DeleteStep};
use sikap_file_storage::handlers::upload::{
    upload_file, BodyStep, FieldEvent, FieldHeader, FieldStep, UploadSession,
};
use sikap_file_storage::utils::auth::auth_middleware;

fn runtime() -> tokio::runtime::Runtime {
    tokio::runtime::Builder::new_current_thread()
        .enable_all()
        .build()
        .unwrap()
}

async fn run_delete(cfg: &AppConfig, filename: &str) -> DeleteResult {
    match delete_file(cfg, filename.to_string()) {
        DeleteStep::Respond(result) => result,
        DeleteStep::Remove(pending) => {
            let removed = tokio::fs::remove_file(&pending.path).await.is_ok();
            pending.finish(removed)
        }
    }
}

#[test]
fn delete_file_removes_existing_file() {
    runtime().block_on(async {
        let dir = tempdir().unwrap();
        let upload_dir = dir.path().to_string_lossy().to_string();

        let file_path = dir.path().join("test.txt");
        tokio::fs::write(&file_path, b"hello").await.unwrap();

        let cfg = AppConfig {
            upload_dir: upload_dir.clone(),
            api_secret: "secret".to_string(),
            port: 0,
        };

        let result = run_delete(&cfg, "test.txt").await;
        assert_eq!(result.status.label(), "success");
        assert!(!file_path.exists());
    });
}

#[test]
fn auth_middleware_rejects_wrong_key() {
    let cfg = AppConfig {
        upload_dir: "./uploads".to_string(),
        api_secret: "secret".to_string(),
        port: 0,
    };

    let headers = HeaderMap::new();
    let outcome = auth_middleware(&cfg, &headers);
    let status = match outcome {
        Ok(()) => StatusCode::OK,
        Err(error) => StatusCode::from_u16(error.status_code()).unwrap(),
    };
    assert_eq!(status, StatusCode::UNAUTHORIZED);
}

#[test]
fn auth_middleware_accepts_correct_key() {
    let cfg = AppConfig {
        upload_dir: "./uploads".to_string(),
        api_secret: "secret".to_string(),
        port: 0,
    };

    let mut headers = HeaderMap::new();
    headers.insert(
        HeaderName::from_static("x-api-key"),
        HeaderValue::from_static("secret"),
    );
    let outcome = auth_middleware(&cfg, &headers);
    let status = match outcome {
        Ok(()) => StatusCode::OK,
        Err(error) => StatusCode::from_u16(error.status_code()).unwrap(),
    };
    assert_eq!(status, StatusCode::OK);
}

#[test]
fn deleting_twice_succeeds_once() {
    runtime().block_on(async {
        let dir = tempdir().unwrap();
        let cfg = AppConfig {
            upload_dir: dir.path().to_string_lossy().to_string(),
            api_secret: "secret".to_string(),
            port: 0,
        };
        let file_path = dir.path().join("once.bin");
        tokio::fs::write(&file_path, b"data").await.unwrap();

        let first = run_delete(&cfg, "once.bin").await;
        assert_eq!(first.status, DeleteStatus::Success);
        assert_eq!(first.filename.as_deref(), Some("once.bin"));
        assert!(!file_path.exists());

        let second = run_delete(&cfg, "once.bin").await;
        assert_eq!(second.status, DeleteStatus::NotFoundOrError);
        assert_eq!(second.status.label(), "error");
        assert_eq!(second.filename, None);
    });
}

#[test]
fn deleting_a_missing_file_leaves_the_directory_alone() {
    runtime().block_on(async {
        let dir = tempdir().unwrap();
        let cfg = AppConfig {
            upload_dir: dir.path().to_string_lossy().to_string(),
            api_secret: "secret".to_string(),
            port: 0,
        };
        let kept = dir.path().join("kept.webp");
        tokio::fs::write(&kept, b"keep").await.unwrap();

        let result = run_delete(&cfg, "nonexistent.webp").await;
        assert_eq!(result.status.label(), "error");
        assert_eq!(result.message, "File not found or could not be deleted");
        assert_eq!(tokio::fs::read(&kept).await.unwrap(), b"keep");
    });
}

#[test]
fn traversal_cannot_delete_outside_the_upload_directory() {
    runtime().block_on(async {
        let outer = tempdir().unwrap();
        let inner = outer.path().join("uploads");
        tokio::fs::create_dir_all(&inner).await.unwrap();
        let outside = outer.path().join("outside.txt");
        tokio::fs::write(&outside, b"precious").await.unwrap();

        let cfg = AppConfig {
            upload_dir: inner.to_string_lossy().to_string(),
            api_secret: "secret".to_string(),
            port: 0,
        };
        let result = run_delete(&cfg, "../outside.txt").await;
        assert_eq!(result.status, DeleteStatus::NotFoundOrError);
        assert!(outside.exists());
    });
}

#[test]
fn uploaded_file_is_written_and_can_be_deleted_by_its_reported_name() {
    runtime().block_on(async {
        let dir = tempdir().unwrap();
        let cfg = AppConfig {
            upload_dir: dir.path().to_string_lossy().to_string(),
            api_secret: "secret".to_string(),
            port: 0,
        };
        let header = FieldHeader {
            name: Some("file".to_string()),
            file_name: Some("photo.jpg".to_string()),
            content_type: Some("image/jpeg".to_string()),
        };
        let pending = match UploadSession::new().next_field(FieldEvent::Field(header)) {
            FieldStep::Read(pending) => pending,
            _ => panic!("field is to be read"),
        };
        let write = match upload_file(&cfg, pending, Some(b"\xff\xd8\xff\xd9".to_vec()), None) {
            BodyStep::Write(write) => write,
            BodyStep::Skip(_) => panic!("body is to be written"),
        };
        let written = tokio::fs::write(write.path(), write.bytes()).await.is_ok();
        let session = write.finish(written).unwrap();
        let records = match session.next_field(FieldEvent::End) {
            FieldStep::Finish(Ok(records)) => records,
            _ => panic!("upload is to end well"),
        };
        assert_eq!(records.len(), 1);
        let stored = dir.path().join(&records[0].stored_name);
        assert_eq!(tokio::fs::read(&stored).await.unwrap(), b"\xff\xd8\xff\xd9");

        let result = run_delete(&cfg, &records[0].stored_name).await;
        assert_eq!(result.status, DeleteStatus::Success);
        assert!(!stored.exists());
    });
}
