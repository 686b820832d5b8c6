//! Tests of the scanners, the block algebra, and the lossy conversion.

use dero::{deromanize, deromanize_escaped, deromanize_into, read_final, read_initial, read_vowel};
use dero::{Block, Final, Initial, Vowel};

#[test]
fn test_everything() {
    println!("Hello Dero!");
    let vowels = "a ya ae yae eo yeo e ye o wa wae oe yo u weo we wi yu y yi";
    let initials = "g G n d D r l m b B s S x j J ch k p t h";
    let finals = "g G gs n nj nh d l lg lm lb ls lt lp lh m b bs s S x j ch k t p h";
    for vowtext in vowels.split_whitespace() {
        let (vow, len) =
            read_vowel(vowtext).expect(&format!("Could not read vowel '{}'", vowtext));
        println!("Vowel: '{}' => {:?} |{}|", vowtext, vow, len);
        assert!(len == vowtext.len());
    }
    for initext in initials.split_whitespace() {
        let (ini, len) =
            read_initial(initext).expect(&format!("Could not read initial '{}'", initext));
        println!("Initial: '{}' => {:?} |{}|", initext, ini, len);
        assert!(len == initext.len());
    }
    for fintext in finals.split_whitespace() {
        let (fin, len) =
            read_final(fintext).expect(&format!("Could not read final '{}'", fintext));
        println!("Final: '{}' => {:?} |{}|", fintext, fin, len);
        assert!(len == fintext.len());
    }
    let derovow = deromanize(vowels);
    println!("Vowels: {}", derovow);
    let deroini = deromanize(initials);
    println!("Initials: {}", deroini);
    let examples =
        "manhda eobsxeoyo balgda masxiSxeoSxeoyo masyeoSxeoyo yeByn yeoja ijxeobeoryeoSxeoyo";
    for ex in examples.split_whitespace() {
        let dero = deromanize(ex);
        println!("{} => {}", ex, dero);
    }
    let syeo = Block::from_parts(Initial::S, Vowel::Yeo, Final::Ss).combine();
    println!("Syeo: {}", syeo);

    let garbage = "astioeangpdurfw:qfujwpk:xlbcmv/2102398473925^9asheynttujfujt";
    println!("Garbage: {}", deromanize(garbage));
    let uj = Block::from_parts(Initial::Ieung, Vowel::U, Final::J).combine();
    println!("Uj: {}", uj);
    let uch = Block::from_parts(Initial::Ieung, Vowel::U, Final::Ch).combine();
    println!("Uch: {}", uch);

    let escaped = deromanize_escaped("annyeoxhaseyo, [Jakob]Si!");
    println!("Escaped: {}", escaped);

    let escaped_garbage = "qdp:[rwufa]eonbcmev/[arp]dft[]sa[][][[nhon]]etydrnt";
    println!("Escaped garbage: {}", deromanize_escaped(escaped_garbage));
}

#[test]
fn block_algebra_exact_values() {
    assert_eq!(Block::from_parts(Initial::G, Vowel::A, Final::Empty).combine(), '가');
    assert_eq!(Block::from_parts(Initial::Ieung, Vowel::A, Final::N).combine(), '안');
    assert_eq!(Block::from_parts(Initial::H, Vowel::A, Final::Empty).combine(), '하');
    assert_eq!(Block::from_parts(Initial::Ieung, Vowel::I, Final::L).combine(), '일');
    let uj = Block::from_parts(Initial::Ieung, Vowel::U, Final::J).combine();
    assert_eq!(uj as u32, 0xAC00 + 11 * 588 + 13 * 28 + 22);
}

#[test]
fn block_offsets_round_trip() {
    let pairs = [
        (Initial::G, Vowel::A),
        (Initial::Ch, Vowel::Yeo),
        (Initial::H, Vowel::I),
        (Initial::Ss, Vowel::Wae),
        (Initial::Ieung, Vowel::Yi),
    ];
    for (ini, vow) in pairs {
        let code = Block::from_parts(ini, vow, Final::Empty).combine() as u32;
        let rel = code - 0xAC00;
        assert_eq!(rel / 588, ini.offset());
        assert_eq!((rel % 588) / 28, vow.offset());
        assert_eq!(rel % 28, 0);
    }
}

#[test]
fn vowel_scanner_longest_match() {
    assert_eq!(read_vowel("yeo"), Some((Vowel::Yeo, 3)));
    assert_eq!(read_vowel("ye"), Some((Vowel::Ye, 2)));
    assert_eq!(read_vowel("y"), Some((Vowel::Y, 1)));
    assert_eq!(read_vowel("yaex"), Some((Vowel::Yae, 3)));
    assert_eq!(read_vowel("waeyo"), Some((Vowel::Wae, 3)));
    assert_eq!(read_vowel("wa"), Some((Vowel::Wa, 2)));
    assert_eq!(read_vowel("aeg"), Some((Vowel::Ae, 2)));
    assert_eq!(read_vowel("a"), Some((Vowel::A, 1)));
    assert_eq!(read_vowel("eon"), Some((Vowel::Eo, 2)));
    assert_eq!(read_vowel("oe"), Some((Vowel::Oe, 2)));
    assert_eq!(read_vowel("w"), None);
    assert_eq!(read_vowel("q"), None);
    assert_eq!(read_vowel(""), None);
}

#[test]
fn initial_scanner_cases() {
    assert_eq!(read_initial("ch"), Some((Initial::Ch, 2)));
    assert_eq!(read_initial("cx"), None);
    assert_eq!(read_initial("c"), None);
    assert_eq!(read_initial("r"), Some((Initial::R, 1)));
    assert_eq!(read_initial("l"), Some((Initial::R, 1)));
    assert_eq!(read_initial("g"), Some((Initial::G, 1)));
    assert_eq!(read_initial("G"), Some((Initial::Gg, 1)));
    assert_eq!(read_initial(""), None);
}

#[test]
fn final_scanner_cases() {
    assert_eq!(read_final("lg"), Some((Final::Lg, 2)));
    assert_eq!(read_final("l"), Some((Final::L, 1)));
    assert_eq!(read_final("bs"), Some((Final::Bs, 2)));
    assert_eq!(read_final("nh"), Some((Final::Nh, 2)));
    assert_eq!(read_final("ch"), Some((Final::Ch, 2)));
    assert_eq!(read_final("D"), None);
    assert_eq!(read_final("B"), None);
    assert_eq!(read_final("J"), None);
    assert_eq!(read_final(""), None);
}

#[test]
fn resyllabification_gasa() {
    assert_eq!(deromanize("gasa"), "가사");
    assert_eq!(deromanize("gas"), "갓");
}

#[test]
fn compound_final_split_ilgo() {
    let out = deromanize("ilgo");
    assert_eq!(out, "일고");
    assert_eq!(out.chars().count(), 2);
    assert_eq!(deromanize("ilg"), "읽");
}

#[test]
fn lone_consonants_become_letters() {
    assert_eq!(deromanize("kkk"), "ㅋㅋㅋ");
    assert_eq!(deromanize("jinJa, kkkkkkk"), "진짜, ㅋㅋㅋㅋㅋㅋㅋ");
}

#[test]
fn passthrough_of_non_alphabet_text() {
    let texts = [" ", " \t\r\n", ".,:;!?", "0123456789", "¡¿ ……", "한글 그대로"];
    for text in texts {
        assert_eq!(deromanize(text), text);
    }
}

#[test]
fn conversion_examples() {
    assert_eq!(deromanize("annyeoxhaseyo"), "안녕하세요");
    assert_eq!(deromanize("hangyl"), "한글");
    assert_eq!(deromanize("arayo"), "아라요");
    assert_eq!(deromanize("rexonSi"), "레온씨");
    assert_eq!(deromanize("manhda"), "많다");
}

#[test]
fn deromanize_into_appends() {
    let mut s = String::from("=> ");
    deromanize_into("gasa", &mut s);
    assert_eq!(s, "=> 가사");
    deromanize_into("!", &mut s);
    assert_eq!(s, "=> 가사!");
}

#[test]
fn escaped_spans_kept_verbatim() {
    assert_eq!(deromanize_escaped("annyeox ha[se]yo"), "안녕 하se요");
    assert_eq!(deromanize_escaped("annyeoxhaseyo, [Jakob]Si!"), "안녕하세요, Jakob씨!");
    assert_eq!(deromanize_escaped("[rk]"), "rk");
    assert_eq!(deromanize_escaped("[]"), "");
    assert_eq!(deromanize_escaped("ga[na"), "가na");
    assert_eq!(deromanize_escaped("ga["), "가");
    assert_eq!(deromanize_escaped("]ga"), "]가");
}
