use barrier_coordinator::error::{
    ensure, ensure_eq, i64_to_dec, internal_error, u64_to_dec, ErrorCode, ErrorSuppressor,
    RwError, ToRwResult, TrackingIssue,
};

#[test]
fn test_display_internal_error() {
    let internal_error = ErrorCode::InternalError("some thing bad happened!".to_string());
    println!("{:?}", RwError::from(internal_error));
}

#[test]
fn test_ensure() {
    let a = 1;

    {
        let err_msg = "a < 0";
        let error = (|| {
            ensure(a < 0, "a < 0")?;
            Ok::<_, RwError>(())
        })()
        .unwrap_err();

        assert_eq!(
            RwError::from(ErrorCode::InternalErrorAnyhow(err_msg.to_string())).to_string(),
            error.to_string(),
        );
    }

    {
        let err_msg = "error msg without args";
        let error = (|| {
            ensure(a < 0, "error msg without args")?;
            Ok::<_, RwError>(())
        })()
        .unwrap_err();
        assert_eq!(
            RwError::from(ErrorCode::InternalErrorAnyhow(err_msg.to_string())).to_string(),
            error.to_string()
        );
    }

    {
        let msg = format!("error msg with args: {}", "xx");
        let error = (|| {
            ensure(a < 0, msg.as_str())?;
            Ok::<_, RwError>(())
        })()
        .unwrap_err();
        assert_eq!(
            RwError::from(ErrorCode::InternalErrorAnyhow(format!(
                "error msg with args: {}",
                "xx"
            )))
            .to_string(),
            error.to_string()
        );
    }
}

#[test]
fn test_ensure_eq() {
    fn ensure_a_equals_b() -> Result<(), RwError> {
        let a: i64 = 1;
        let b: i64 = 2;
        ensure_eq("a", "b", a, b)?;
        Ok(())
    }
    let err = ensure_a_equals_b().unwrap_err();
    assert_eq!(err.to_string(), "a == b assertion failed (a is 1, b is 2)");
}

#[test]
fn test_ensure_eq_holds() {
    assert!(ensure_eq("x", "y", 7, 7).is_ok());
}

#[test]
fn test_decimal_rendering() {
    assert_eq!(u64_to_dec(0), "0");
    assert_eq!(u64_to_dec(907), "907");
    assert_eq!(u64_to_dec(u64::MAX), "18446744073709551615");
    assert_eq!(i64_to_dec(-42), "-42");
    assert_eq!(i64_to_dec(i64::MIN), "-9223372036854775808");
    assert_eq!(i64_to_dec(15), "15");
}

#[test]
fn test_tracking_issue_text() {
    assert_eq!(
        TrackingIssue::new(123).text(),
        "Tracking issue: https://github.com/risingwavelabs/risingwave/issues/123"
    );
    assert!(TrackingIssue::none().text().starts_with("No tracking issue yet."));
}

#[test]
fn test_error_code_messages() {
    assert_eq!(
        internal_error("oops").to_string(),
        "internal error: oops"
    );
    assert_eq!(
        RwError::from(ErrorCode::NotSupported("thing".to_string(), "hint".to_string()))
            .to_string(),
        "Not supported: thing\nHINT: hint"
    );
    assert_eq!(
        RwError::from(ErrorCode::NotImplemented("feat".to_string(), TrackingIssue::new(9)))
            .to_string(),
        "Feature is not yet implemented: feat\nTracking issue: https://github.com/risingwavelabs/risingwave/issues/9"
    );
    assert_eq!(RwError::from(ErrorCode::TaskNotFound).to_string(), "Task not found");
    assert_eq!(
        RwError::from(ErrorCode::PermissionDenied("no".to_string())).to_string(),
        "Permission denied: no"
    );
    assert_eq!(
        RwError::from(ErrorCode::InvalidParameterValue("v".to_string())).to_string(),
        "Invalid Parameter Value: v"
    );
    assert_eq!(
        RwError::from(ErrorCode::UnrecognizedConfigurationParameter("p".to_string()))
            .to_string(),
        "unrecognized configuration parameter \"p\""
    );
    assert_eq!(
        RwError::from(ErrorCode::ItemNotFound("it".to_string())).to_string(),
        "Item not found: it"
    );
    assert_eq!(
        RwError::from(ErrorCode::InvalidInputSyntax("q".to_string())).to_string(),
        "Invalid input syntax: q"
    );
    assert_eq!(
        RwError::from(ErrorCode::ProtocolError("x".to_string())).to_string(),
        "Protocol error: x"
    );
    assert_eq!(
        RwError::from(ErrorCode::BindError("y".to_string())).to_string(),
        "Bind error: y"
    );
    assert_eq!(
        RwError::from("plain".to_string()).to_string(),
        "internal error: plain"
    );
}

#[test]
fn test_error_suppressor() {
    let mut s = ErrorSuppressor::new(2);
    assert_eq!(s.max(), 2);
    assert!(!s.suppress_error("a", 0));
    assert!(!s.suppress_error("a", 1));
    assert!(!s.suppress_error("b", 2));
    assert!(s.suppress_error("c", 3));
    // after the reset window the record is empty again
    assert!(!s.suppress_error("c", 3_600_000));
    assert!(s.suppress_error("a", 3_600_001) == false);
}

#[test]
fn test_to_rw_result() {
    let (tx, rx) = std::sync::mpsc::channel::<u32>();
    drop(rx);
    let failed = tx.send(5).to_rw_result();
    let err = failed.unwrap_err();
    assert_eq!(err.to_string(), "internal error: sending on a closed channel");
    let fine: Result<u32, std::sync::mpsc::SendError<u32>> = Ok(3);
    assert_eq!(fine.to_rw_result().unwrap(), 3);
}

#[test]
fn test_to_rw_result_with() {
    let (tx, rx) = std::sync::mpsc::channel::<u32>();
    drop(rx);
    let failed = tx.send(5).to_rw_result_with(|| "while notifying".to_string());
    assert_eq!(
        failed.unwrap_err().to_string(),
        "internal error: while notifying: sending on a closed channel"
    );
}
