use uncomment::rmc::common::{comment_pattern, remove_comment as common_remove_comment};
use uncomment::rmc::ps;
use uncomment::rmc::py;
use uncomment::rmc::py::remove_head_and_tail_double_quotation;
use uncomment::rmc::xlsm::BasFile;

#[test]
fn test_remove_comment_1() {
    let src = r#"
            ping  # INFO: これは消せるかな？
            Write-Output 'ピヨピヨだよ～'  # FIXME: もっと硬派に泣くこと
        "#;

    let dst = r#"
            ping
            Write-Output 'ピヨピヨだよ～'
        "#;

    assert_eq!(ps::remove_comment(&src.to_string(), &vec!["INFO:", "FIXME:"]), dst.to_string());
}

#[test]
fn test_remove_multiline_comment_as_utf8() {
    let src = r#"
            Function piyopiyo() {
                <#
                突っ張り気味になくぴよりん
                #>
                Write-Output 'ピヨピヨしてんじゃねーよ'
            }
        "#;

    let dst = r#"
            Function piyopiyo() {
                Write-Output 'ピヨピヨしてんじゃねーよ'
            }
        "#;

    assert_eq!(ps::remove_multiline_comment(&src.to_string()), dst.to_string());
}

#[test]
fn test_remove_head_and_tail_double_quotation() {
    assert_eq!(remove_head_and_tail_double_quotation(&String::from("abc\n")), String::from("abc"));
    assert_eq!(remove_head_and_tail_double_quotation(&String::from("\"abc\"\n")), String::from("abc"));
}

#[test]
fn py_test_remove_comment() {
    let src = r#"
            import os
            print('始めるよ！')  # TODO: Fix this issue
            os.path.basename("hoge")  # FIXME: Address this problem
        "#;

    let dst = r#"
            import os
            print('始めるよ！')
            os.path.basename("hoge")
        "#;

    assert_eq!(py::remove_comment(&src.to_string(), vec!["TODO:", "FIXME:"]), dst.to_string());
}

#[test]
fn test_remove_docstring() {
    let src = r#"
            import datetime
            def hogeee():
                """
                this is docstring !!!
                """
                return datetime.datetime.now()
            def piyo():
                '''
                the second docstring !!!
                '''
                return 123
        "#;

    let dst = r#"
            import datetime
            def hogeee():
                return datetime.datetime.now()
            def piyo():
                return 123
        "#;

    assert_eq!(py::remove_docstring(&src.to_string()), dst.to_string());
}

#[test]
fn comment_pattern_joins_one_alternative_per_keyword() {
    let pattern = comment_pattern(&vec!["TODO:", "FIXME:"], "#");
    assert_eq!(pattern, r"\s*?#\s*?TODO:.*|\s*?#\s*?FIXME:.*");
    assert_eq!(comment_pattern(&vec![], "#"), "");
    assert_eq!(comment_pattern(&vec!["NOTE"], "'"), r"\s*?'\s*?NOTE.*");
}

#[test]
fn remove_comment_keeps_other_comments() {
    let src = String::from("a = 1  # keep me\nb = 2  # TODO: drop me\n");
    assert_eq!(
        common_remove_comment(&src, &vec!["TODO:"], "#"),
        String::from("a = 1  # keep me\nb = 2\n")
    );
}

#[test]
fn remove_comment_without_keywords_changes_nothing() {
    let src = String::from("x = 1  # TODO: stays\n");
    assert_eq!(py::remove_comment(&src, vec![]), src);
}

#[test]
fn hash_comments_are_removed_alike() {
    let src = String::from("x  # HACK: y\nz\n");
    assert_eq!(py::remove_comment(&src, vec!["HACK:"]), ps::remove_comment(&src, &vec!["HACK:"]));
}

#[test]
fn quotes_kept_when_unpaired() {
    assert_eq!(remove_head_and_tail_double_quotation(&String::from("\"abc")), String::from("\"abc"));
    assert_eq!(remove_head_and_tail_double_quotation(&String::from("\"abc\"\r\n")), String::from("abc"));
    assert_eq!(remove_head_and_tail_double_quotation(&String::from("\"")), String::from("\""));
    assert_eq!(remove_head_and_tail_double_quotation(&String::from("")), String::from(""));
}

#[test]
fn bas_file_remove_comment() {
    let mut file = BasFile {
        file_name: String::from("Utils.bas"),
        code: String::from(
            "Attribute VB_Name = \"Utils\"\nOption Explicit\n\nSub HellWorld()\n    Msgbox \"Hello World !!!\"  ' FIXME: 240311 あああ\nEnd Sub\n",
        ),
    };
    file.remove_comment(&vec![String::from("FIXME:")]);
    let expect = BasFile {
        file_name: String::from("Utils.bas"),
        code: String::from(
            "Attribute VB_Name = \"Utils\"\nOption Explicit\n\nSub HellWorld()\n    Msgbox \"Hello World !!!\"\nEnd Sub\n",
        ),
    };
    assert_eq!(file, expect);
}

#[test]
fn bas_file_try_remove_comment_rejects_bad_keyword() {
    let mut file = BasFile { file_name: String::from("A.bas"), code: String::from("x ' (TODO\n") };
    assert!(!file.try_remove_comment(&vec![String::from("(")]));
    assert_eq!(file.code, String::from("x ' (TODO\n"));
    assert!(file.try_remove_comment(&vec![String::from("TODO")]));
    assert_eq!(file.code, String::from("x ' (TODO\n"));
    assert!(file.try_remove_comment(&vec![String::from("\\(TODO")]));
    assert_eq!(file.code, String::from("x\n"));
}
