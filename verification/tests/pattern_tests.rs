//! The masked-equality verifier: every comparison method against accepted
//! and rejected candidate windows. Patterns are written as ASCII bytes with
//! `?` for a wildcard position.

use aob::DynamicPattern;
use aob::Method;

/// Checks the selected method and the verifier's verdicts for one pattern.
fn check_cmpeq(pat_text: &str, method: Method, accepted: &[&[u8]], rejected: &[&[u8]]) {
    let bytes: Vec<Option<u8>> = pat_text
        .bytes()
        .map(|x| if x == b'?' { None } else { Some(x) })
        .collect();
    let dynamic = DynamicPattern::from_bytes(&bytes);
    let pattern = dynamic.pattern_ref();
    assert_eq!(pattern.method(), method, "{pat_text}");
    for c in accepted {
        assert!(pattern.cmpeq(c), "{pat_text}");
    }
    for c in rejected {
        assert!(!pattern.cmpeq(c), "{pat_text}");
    }
}


#[test]
fn pattern_test_scalar() {
    check_cmpeq(
        "who",
        Method::Scalar,
        &[b"who"],
        &[b"why", b"whose", b"wh", b""],
    );
    check_cmpeq(
        "w?o",
        Method::Scalar,
        &[b"who", b"wao", b"woo", b"wto"],
        &[b"aho", b"why", b"whoo", b"wh", b"hhh", b""],
    );
    check_cmpeq(
        "???",
        Method::Scalar,
        &[b"abc", b"aaa", b"dns", b"jop"],
        &[b"abcd", b"ab", b"a", b""],
    );
}

#[test]
fn pattern_test_swar32() {
    check_cmpeq(
        "nobody",
        Method::Swar32,
        &[b"nobody"],
        &[b"nobodys", b"nobod", b"n0b0dy", b"nobode", b""],
    );
    check_cmpeq(
        "larc?ny",
        Method::Swar32,
        &[b"larceny", b"larcany", b"larcuny", b"larcony"],
        &[b"lardeny", b"larcefy", b"larcenyy", b"larcen", b""],
    );
    check_cmpeq(
        "????",
        Method::Swar32,
        &[b"abcd", b"aaaa", b"dnla", b"rt;l"],
        &[b"abcde", b"abc", b"ab", b"a", b""],
    );
}

#[test]
fn pattern_test_swar64() {
    check_cmpeq(
        "how are you",
        Method::Swar64,
        &[b"how are you"],
        &[b"how arr you", b"how arr you", b"h0w are you", b"who are you", b"why am i", b"where are we", b""],
    );
    check_cmpeq(
        "what ?im? i? it",
        Method::Swar64,
        &[b"what time is it", b"what lime is it", b"what time if it", b"what .im5 i? it"],
        &[b"what time is it?", b"time is it?", b"asdnlasdlanldam", b""],
    );
    check_cmpeq(
        "????????",
        Method::Swar64,
        &[b"12345678", b"asdnqnkm", b"389u1jlm", b"hdqi09uj"],
        &[b"hdqi09uja", b"noqdkl", b"qoji", b"qdjpocomwkl", b""],
    );
}

#[test]
fn pattern_test_sse2() {
    check_cmpeq(
        "set the world aflame",
        Method::Sse2,
        &[b"set the world aflame"],
        &[b"set the world aflame?", b"set the world aflame!", b"set the world ablaze", b"set the house aflame", b""],
    );
    check_cmpeq(
        "t?rn t?at li?ht around",
        Method::Sse2,
        &[b"turn that light around", b"turn t1at li8ht around", b"t?rn t_at li;ht around"],
        &[b"turn that light around?", b"turn that light aroun", b""],
    );
    check_cmpeq(
        "?????????????????",
        Method::Sse2,
        &[b"0123456789ABCDEF0", b"asndkandlanldlalq", b"2390ujondlasaasdh"],
        &[b"nodqwndlam;[qk;", b"203hg1ftdvwhbjckcnvl", b""],
    );
}

#[test]
fn pattern_test_avx2() {
    check_cmpeq(
        "where the fear has gone there will be nothing",
        Method::Avx2,
        &[b"where the fear has gone there will be nothing"],
        &[b"where the fear has gone their will be nothing", b"where the fear has gone there will be nothin", b"where the fear has gone there will be nothing?", b"hfuqwom0293i2pk;,/.;'admpadbuyvqwgdiuhojfmcll", b""],
    );
    check_cmpeq(
        "where the fear ??? gone there ???? be nothing",
        Method::Avx2,
        &[b"where the fear has gone there will be nothing", b"where the fear 988 gone there hoqa be nothing"],
        &[b"where the fear has gone their will be nothing", b"where the fear has gone there will be nothing?", b"where the fear has gone there will be nothin", b""],
    );
    check_cmpeq(
        "?????????????????????????????????????????????",
        Method::Avx2,
        &[b"where the fear has gone there will be nothing", b"where the fear 988 gone there hoqa be qjnnwkl", b"qbhinldnklkdndabjkdbqoanlkmmwand,nd,andasnlda"],
        &[b"where the fear has gone there will be nothing?", b"where the fear has gone there will be nothin", b""],
    );
}
