use galaxy_3d_engine::error::Error;

type Result<T> = std::result::Result<T, Error>;

#[test]
fn test_backend_error_display() {
    let err = Error::BackendError("Vulkan initialization failed".to_string());
    let display = err.to_string();
    assert!(display.contains("Backend error"));
    assert!(display.contains("Vulkan initialization failed"));
}

#[test]
fn test_out_of_memory_display() {
    let err = Error::OutOfMemory;
    let display = err.to_string();
    assert_eq!(display, "Out of GPU memory");
}

#[test]
fn test_invalid_resource_display() {
    let err = Error::InvalidResource("Texture not found".to_string());
    let display = err.to_string();
    assert!(display.contains("Invalid resource"));
    assert!(display.contains("Texture not found"));
}

#[test]
fn test_initialization_failed_display() {
    let err = Error::InitializationFailed("Window creation failed".to_string());
    let display = err.to_string();
    assert!(display.contains("Initialization failed"));
    assert!(display.contains("Window creation failed"));
}

#[test]
fn test_error_debug() {
    let err1 = Error::BackendError("test".to_string());
    let debug1 = format!("{:?}", err1);
    assert!(debug1.contains("BackendError"));

    let err2 = Error::OutOfMemory;
    let debug2 = format!("{:?}", err2);
    assert!(debug2.contains("OutOfMemory"));

    let err3 = Error::InvalidResource("resource".to_string());
    let debug3 = format!("{:?}", err3);
    assert!(debug3.contains("InvalidResource"));

    let err4 = Error::InitializationFailed("init".to_string());
    let debug4 = format!("{:?}", err4);
    assert!(debug4.contains("InitializationFailed"));
}

#[test]
fn test_error_clone() {
    let err1 = Error::BackendError("test".to_string());
    let err2 = err1.clone();
    assert_eq!(err1.to_string(), err2.to_string());

    let err3 = Error::OutOfMemory;
    let err4 = err3.clone();
    assert_eq!(err3.to_string(), err4.to_string());

    let err5 = Error::InvalidResource("res".to_string());
    let err6 = err5.clone();
    assert_eq!(err5.to_string(), err6.to_string());

    let err7 = Error::InitializationFailed("init".to_string());
    let err8 = err7.clone();
    assert_eq!(err7.to_string(), err8.to_string());
}

#[test]
fn test_result_type_ok() {
    let result = returns_ok();
    assert!(result.is_ok());
    assert_eq!(result.unwrap(), 42);
}

#[test]
fn test_result_type_err() {
    let result = returns_error();
    assert!(result.is_err());

    if let Err(e) = result {
        assert_eq!(e.to_string(), "Out of GPU memory");
    }
}

#[test]
fn test_result_type_all_variants() {
    assert!(returns_backend_error().is_err());
    assert!(returns_out_of_memory().is_err());
    assert!(returns_invalid_resource().is_err());
    assert!(returns_initialization_failed().is_err());
}

#[test]
fn test_error_propagation_with_question_mark() {
    let result = outer();
    assert!(result.is_err());
}

#[test]
fn test_error_message_content() {
    let err1 = Error::BackendError("Vulkan error code: -3".to_string());
    assert!(err1.to_string().contains("Vulkan error code: -3"));

    let err2 = Error::InvalidResource("Texture ID 42 not found in cache".to_string());
    assert!(err2.to_string().contains("Texture ID 42"));

    let err3 = Error::InitializationFailed("Failed to load vulkan-1.dll".to_string());
    assert!(err3.to_string().contains("vulkan-1.dll"));
}

#[test]
fn error_text_is_prefix_then_message() {
    assert_eq!(Error::BackendError("x".to_string()).to_string(), "Backend error: x");
    assert_eq!(Error::InvalidResource("y".to_string()).to_string(), "Invalid resource: y");
    assert_eq!(
        Error::InitializationFailed("z".to_string()).to_string(),
        "Initialization failed: z"
    );
    assert_eq!(Error::BackendError(String::new()).to_string(), "Backend error: ");
}

fn returns_ok() -> Result<i32> {
    Ok(42)
}

fn returns_error() -> Result<i32> {
    Err(Error::OutOfMemory)
}

fn returns_backend_error() -> Result<()> {
    Err(Error::BackendError("test".to_string()))
}

fn returns_out_of_memory() -> Result<()> {
    Err(Error::OutOfMemory)
}

fn returns_invalid_resource() -> Result<()> {
    Err(Error::InvalidResource("test".to_string()))
}

fn returns_initialization_failed() -> Result<()> {
    Err(Error::InitializationFailed("test".to_string()))
}

fn inner() -> Result<i32> {
    Err(Error::OutOfMemory)
}

fn outer() -> Result<i32> {
    inner()?;
    Ok(42)
}
