use gemini_draw::archive::{cli_from_tar_gz, cli_from_zip, extract_binary};
use gemini_draw::engine::Os;
use std::io::Write;

fn zip_of(files: &[(&str, &[u8])]) -> Vec<u8> {
    let mut w = zip::ZipWriter::new(std::io::Cursor::new(Vec::new()));
    for (name, data) in files {
        w.start_file(*name, zip::write::SimpleFileOptions::default()).unwrap();
        w.write_all(data).unwrap();
    }
    w.finish().unwrap().into_inner()
}

fn tar_gz_of(files: &[(&str, &[u8])]) -> Vec<u8> {
    let gz = flate2::write::GzEncoder::new(Vec::new(), flate2::Compression::default());
    let mut b = tar::Builder::new(gz);
    for (name, data) in files {
        let mut h = tar::Header::new_gnu();
        h.set_size(data.len() as u64);
        h.set_mode(0o755);
        h.set_cksum();
        b.append_data(&mut h, name, *data).unwrap();
    }
    b.into_inner().unwrap().finish().unwrap()
}

#[test]
fn zip_package() {
    let bytes = zip_of(&[("README.md", b"hello"), ("dist/gemini-web-cli.exe", b"MZ-binary")]);
    assert_eq!(cli_from_zip(bytes.clone(), Os::Windows), Ok(b"MZ-binary".to_vec()));
    assert_eq!(extract_binary(bytes, Os::Windows, true), Ok(b"MZ-binary".to_vec()));
    let none = zip_of(&[("README.md", b"hello")]);
    assert_eq!(
        cli_from_zip(none, Os::Windows),
        Err("发布包里没有找到 gemini-web-cli 可执行文件".to_string())
    );
    assert_eq!(cli_from_zip(vec![1, 2, 3], Os::Windows), Err("打开 zip 失败".to_string()));
}

#[test]
fn tar_gz_package() {
    let bytes = tar_gz_of(&[("LICENSE", b"mit"), ("gemini-web-cli", b"\x7fELF-binary"), ("gemini-web-cli-2", b"x")]);
    assert_eq!(cli_from_tar_gz(bytes.clone(), Os::Linux), Ok(b"\x7fELF-binary".to_vec()));
    assert_eq!(extract_binary(bytes, Os::MacOs, false), Ok(b"\x7fELF-binary".to_vec()));
    let none = tar_gz_of(&[("LICENSE", b"mit")]);
    assert_eq!(
        cli_from_tar_gz(none, Os::Linux),
        Err("发布包里没有找到 gemini-web-cli 可执行文件".to_string())
    );
    assert!(cli_from_tar_gz(vec![0x1f, 0x8b, 0, 0], Os::Linux).is_err());
}
