use uncomment::text_util::{normalize_newlines, replace_all};
use uncomment::transfer::{
    convert_bool_to_str, is_hidden_name, obtain_proc_type, proc_type_for_extension, process_code,
    vba_arguments, walked_transfer_info, ProcType, TransferInfo,
};

#[test]
fn test_obtain_proc_type() {
    let result = obtain_proc_type("hoge.py", &vec![]);
    assert_eq!(result, ProcType::Py)
}

#[test]
fn proc_types_by_extension() {
    let copies = vec![String::from("txt"), String::from("py")];
    assert_eq!(proc_type_for_extension(Some("xlsm"), &copies), ProcType::Xlsm);
    assert_eq!(proc_type_for_extension(Some("ps1"), &copies), ProcType::Ps);
    assert_eq!(proc_type_for_extension(Some("psd1"), &copies), ProcType::Ps);
    assert_eq!(proc_type_for_extension(Some("psm1"), &copies), ProcType::Ps);
    assert_eq!(proc_type_for_extension(Some("py"), &copies), ProcType::Py);
    assert_eq!(proc_type_for_extension(Some("txt"), &copies), ProcType::Copy);
    assert_eq!(proc_type_for_extension(Some("md"), &copies), ProcType::Skip);
    assert_eq!(proc_type_for_extension(None, &copies), ProcType::Skip);
    assert_eq!(obtain_proc_type("dir/a.txt", &copies), ProcType::Copy);
    assert_eq!(obtain_proc_type("Makefile", &copies), ProcType::Skip);
    assert_eq!(obtain_proc_type(".hidden", &copies), ProcType::Skip);
    assert_eq!(obtain_proc_type("x/Book.xlsm", &copies), ProcType::Xlsm);
}

#[test]
fn bool_flags() {
    assert_eq!(convert_bool_to_str(&true), "1");
    assert_eq!(convert_bool_to_str(&false), "0");
}

#[test]
fn vba_tool_arguments() {
    assert_eq!(
        vba_arguments("in.xlsm", "out/in.xlsm", true, false),
        vec![
            "--src",
            "in.xlsm",
            "--dst",
            "out/in.xlsm",
            "--remove-multiline-comment",
            "1",
            "--remove-excel-macro-test-code",
            "0"
        ]
    );
}

#[test]
fn hidden_names() {
    assert!(is_hidden_name(".git"));
    assert!(!is_hidden_name("src"));
    assert!(!is_hidden_name(""));
}

#[test]
fn walked_file_keeps_relative_path() {
    let copies = vec![];
    let info = walked_transfer_info("./misc/piyo/sample_002.py", "./misc", "./dst_rmc", &copies);
    assert_eq!(
        info,
        TransferInfo {
            src: String::from("./misc/piyo/sample_002.py"),
            dst: String::from("./dst_rmc/piyo/sample_002.py"),
            proc_type: ProcType::Py,
        }
    );
}

#[test]
fn replace_all_like_std() {
    for (s, f, t) in [
        ("aaa", "aa", "b"),
        ("abcabc", "bc", "X"),
        ("abc", "", "-"),
        ("", "", "-"),
        ("\r\r\n", "\r\n", "\n"),
        ("xyz", "q", "r"),
    ] {
        assert_eq!(replace_all(s, f, t), s.replace(f, t));
    }
    assert_eq!(normalize_newlines("a\r\nb\rc\n"), "a\nb\rc\n");
}

#[test]
fn process_python_and_powershell() {
    let keys = vec![String::from("TODO:")];
    let py = String::from("def f():\n    \"\"\"doc\"\"\"\n    return 1  # TODO: x\n");
    assert_eq!(
        process_code(ProcType::Py, &py, &keys, true),
        Some(String::from("def f():\n    return 1\n"))
    );
    assert_eq!(
        process_code(ProcType::Py, &py, &keys, false),
        Some(String::from("def f():\n    \"\"\"doc\"\"\"\n    return 1\n"))
    );
    let ps = String::from("<# head #>\nWrite-Output 1  # TODO: y\n");
    assert_eq!(process_code(ProcType::Ps, &ps, &keys, true), Some(String::from("\nWrite-Output 1\n")));
    assert_eq!(process_code(ProcType::Ps, &ps, &vec![String::from("(")], true), None);
}

#[test]
fn walked_windows_paths() {
    let copy_extensions = vec![String::from("py")];
    let expected = vec![
        TransferInfo {
            src: String::from(r".\misc\piyo\sample_002.py"),
            dst: String::from(r".\dst_rmc\piyo\sample_002.py"),
            proc_type: ProcType::Py,
        },
        TransferInfo {
            src: String::from(r".\misc\sample_001.py"),
            dst: String::from(r".\dst_rmc\sample_001.py"),
            proc_type: ProcType::Py,
        },
    ];
    let result: Vec<TransferInfo> = [r".\misc\piyo\sample_002.py", r".\misc\sample_001.py"]
        .iter()
        .map(|p| walked_transfer_info(p, r".\misc", r".\dst_rmc", &copy_extensions))
        .collect();
    assert_eq!(result, expected);
    assert_eq!(obtain_proc_type(r"dir.x\Script.ps1", &vec![]), ProcType::Ps);
}
