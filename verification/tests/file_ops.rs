use wie_jni::file_ops::{read_len, write_extension};

/// Carries out a write the way the filesystem backend does.
fn write(contents: &mut Vec<u8>, offset: usize, data: &[u8]) {
    if let Some(len) = write_extension(offset, contents.len()) {
        contents.resize(len, 0);
    }
    let end = offset + data.len();
    if end > contents.len() {
        contents.resize(end, 0);
    }
    contents[offset..end].copy_from_slice(data);
}

/// Carries out a read the way the filesystem backend does.
fn read(contents: &[u8], offset: usize, count: usize) -> Vec<u8> {
    let n = read_len(offset, count, contents.len());
    if n == 0 {
        return vec![];
    }
    contents[offset..offset + n].to_vec()
}

#[test]
fn read_len_is_bounded_by_the_file() {
    assert_eq!(read_len(0, 10, 4), 4);
    assert_eq!(read_len(1, 2, 10), 2);
    assert_eq!(read_len(3, 5, 4), 1);
    assert_eq!(read_len(4, 10, 4), 0);
    assert_eq!(read_len(5, 1, 4), 0);
    assert_eq!(read_len(0, 0, 4), 0);
}

#[test]
fn write_extension_only_past_the_end() {
    assert_eq!(write_extension(10, 4), Some(10));
    assert_eq!(write_extension(4, 4), None);
    assert_eq!(write_extension(2, 4), None);
}

#[test]
fn read_after_write_gives_the_data_back() {
    let mut c = vec![1u8, 2, 3];
    write(&mut c, 5, &[9, 8]);
    assert_eq!(c, vec![1, 2, 3, 0, 0, 9, 8]);
    assert_eq!(read(&c, 5, 2), vec![9, 8]);
    write(&mut c, 1, &[7]);
    assert_eq!(read(&c, 1, 1), vec![7]);
    assert_eq!(c, vec![1, 7, 3, 0, 0, 9, 8]);
}
