//! Tests of the pkt-line decoder and the reference classification.

use findupdate::checker::git::{collect_git_refs, GitRefs};
use findupdate::errors::ProtocolError;
use findupdate::pktline::{first_tuple, kv_pair, parse_git_manifest, single_line};

#[test]
fn first_tuple_test() {
    let input = &b"001e# "[..];
    let (token, end) = first_tuple(input, 0).unwrap();
    assert_eq!(token, b"001e#".to_vec());
    // exactly the trailing space is left over
    assert_eq!(end, 5);
    assert_eq!(&input[end..], &b" "[..]);
}

#[test]
fn kv_test() {
    // blob descriptor
    let input = &b"003fdb358a2993be0e0aa3864ed3290105dd4a544c35 refs/heads/avx512\n"[..];
    let ((hex, payload), end) = kv_pair(input, 0).unwrap();
    assert_eq!(hex, b"003fdb358a2993be0e0aa3864ed3290105dd4a544c35".to_vec());
    assert_eq!(payload, b"refs/heads/avx512".to_vec());
    assert_eq!(&input[end..], &b"\n"[..]);
    // service descriptor
    let input = &b"001e# service=git-upload-pack\n"[..];
    let ((hex, payload), end) = kv_pair(input, 0).unwrap();
    assert_eq!(hex, b"001e#".to_vec());
    assert_eq!(payload, b"service=git-upload-pack".to_vec());
    assert_eq!(&input[end..], &b"\n"[..]);
    // capability descriptor
    let input = &b"000000fe68e3802b238b964900acac9422a70e295482243f HEAD\x00multi_ack no-done symref=HEAD:refs/heads/master agent=git/2.11.4.GIT\n"[..];
    let ((hex, payload), end) = kv_pair(input, 0).unwrap();
    assert_eq!(
        hex,
        b"000000fe68e3802b238b964900acac9422a70e295482243f".to_vec()
    );
    assert_eq!(
        payload,
        b"HEAD\x00multi_ack no-done symref=HEAD:refs/heads/master agent=git/2.11.4.GIT".to_vec()
    );
    assert_eq!(&input[end..], &b"\n"[..]);
}

#[test]
fn test_multiline() {
    let input = &b"01234abc heads\n12345bcd tags\n"[..];
    let (pairs, end) = parse_git_manifest(input).unwrap();
    assert_eq!(
        pairs,
        vec![
            (b"01234abc".to_vec(), b"heads".to_vec()),
            (b"12345bcd".to_vec(), b"tags".to_vec()),
        ]
    );
    // the whole input is consumed
    assert_eq!(end, input.len());
    // with caps and trailer
    let input = &b"001e# service=git-upload-pack\n01234abc heads\n12345bcd tags\n0000"[..];
    let (pairs, end) = parse_git_manifest(input).unwrap();
    assert_eq!(
        pairs,
        vec![
            (b"001e#".to_vec(), b"service=git-upload-pack".to_vec()),
            (b"01234abc".to_vec(), b"heads".to_vec()),
            (b"12345bcd".to_vec(), b"tags".to_vec()),
        ]
    );
    // exactly the flush packet is left over
    assert_eq!(&input[end..], &b"0000"[..]);
}

#[test]
fn test_single_line_needs_terminator() {
    // a line without any closing whitespace is not a line
    assert!(single_line(&b"0123 payload"[..], 0).is_err());
    // one with a newline is
    let ((hex, payload), end) = single_line(&b"0123 payload\n"[..], 0).unwrap();
    assert_eq!(hex, b"0123".to_vec());
    assert_eq!(payload, b"payload".to_vec());
    assert_eq!(end, 13);
}

#[test]
fn test_manifest_rejects_garbage() {
    // no token at all
    assert_eq!(
        parse_git_manifest(&b"!!nonsense"[..]).unwrap_err(),
        ProtocolError::MalformedPktLine
    );
    // empty advertisement
    assert!(parse_git_manifest(&b""[..]).is_err());
    // a bare carriage return breaks the line
    assert!(parse_git_manifest(&b"0123 pay\rload"[..]).is_err());
}

#[test]
fn test_collect_refs_classification() {
    let input = b"001e# service=git-upload-pack\n\
aaaa0001 refs/tags/v1.0\n\
aaaa0002 refs/tags/v2.0^{}\n\
aaaa0003 refs/heads/master\n\
aaaa0004 HEAD\n\
0000";
    let refs = collect_git_refs(&input[..]).unwrap();
    assert_eq!(
        refs,
        vec![
            GitRefs::Tag("v1.0".to_string()),
            GitRefs::Heads("master".to_string(), "aaaa0003".to_string()),
        ]
    );
}

#[test]
fn test_peeled_tags_never_emitted() {
    // every payload carries the peeled-tag marker: nothing may come out
    let input = b"aaaa0001 refs/tags/v1.0^{}\naaaa0002 refs/heads/x^{}\n";
    let refs = collect_git_refs(&input[..]).unwrap();
    assert!(refs.is_empty());
}

#[test]
fn test_non_utf8_names_dropped() {
    let input = b"aaaa0001 refs/tags/\xff\xfe\naaaa0002 refs/tags/ok\n";
    let refs = collect_git_refs(&input[..]).unwrap();
    assert_eq!(refs, vec![GitRefs::Tag("ok".to_string())]);
}

#[test]
fn test_git_ref_name() {
    assert_eq!(GitRefs::Tag("v1".to_string()).name(), "v1");
    assert_eq!(
        GitRefs::Heads("main".to_string(), "ab12".to_string()).name(),
        "main"
    );
}
