use wie_jni::logline::{android_log_priority, format_log_line, format_logcat_message, level_label, LogLevel};

#[test]
fn priorities_follow_logcat() {
    assert_eq!(android_log_priority(LogLevel::Error), 6);
    assert_eq!(android_log_priority(LogLevel::Warn), 5);
    assert_eq!(android_log_priority(LogLevel::Info), 4);
    assert_eq!(android_log_priority(LogLevel::Debug), 3);
    assert_eq!(android_log_priority(LogLevel::Trace), 2);
}

#[test]
fn level_labels() {
    assert_eq!(level_label(LogLevel::Error), "ERROR");
    assert_eq!(level_label(LogLevel::Warn), "WARN");
    assert_eq!(level_label(LogLevel::Info), "INFO");
    assert_eq!(level_label(LogLevel::Debug), "DEBUG");
    assert_eq!(level_label(LogLevel::Trace), "TRACE");
}

#[test]
fn log_file_line_layout() {
    assert_eq!(
        format_log_line(1725029869123, LogLevel::Warn, "wie_jni", "failed to load app"),
        "[1725029869123] WARN wie_jni - failed to load app\n"
    );
    assert_eq!(format_log_line(0, LogLevel::Info, "", ""), "[0] INFO  - \n");
}

#[test]
fn logcat_text_layout() {
    assert_eq!(format_logcat_message("wie_stdout", "hello"), "wie_stdout - hello");
}
