//! Arabic shaping for bidi-less display, and the Tk options.

use rustpython_arabiya::shaping::{DUAL_JOIN, RTL_JOIN, 
    codepoints, contains_rtl, joining, shape_arabic, shaped_codepoints, visible_text,
};
use rustpython_arabiya::tk::tk_argv;

fn shape(s: &str) -> Vec<u32> {
    shape_arabic(&codepoints(s))
}

#[test]
fn rtl_detection() {
    assert!(!contains_rtl("hello"));
    assert!(contains_rtl("مرحبا"));
    assert!(contains_rtl("שלום"));
    assert!(contains_rtl("a\u{200F}b"));
    assert_eq!(shaped_codepoints("hello"), None);
}

#[test]
fn joining_classes() {
    assert_eq!(joining(0x0627), 1); // ا
    assert_eq!(joining(0x0628), 2); // ب
    assert_eq!(joining(0x0621), 0); // ء
    assert_eq!(joining(0x41), 0);
}

#[test]
fn contextual_forms() {
    // ب alone, then بب (initial + final), then ببب (initial, medial, final).
    assert_eq!(shape("ب"), vec![0xFE8F]);
    assert_eq!(shape("بب"), vec![0xFE91, 0xFE90]);
    assert_eq!(shape("ببب"), vec![0xFE91, 0xFE92, 0xFE90]);
    // A letter after any joining letter takes its joined-left form, even
    // after a right-joining د.
    assert_eq!(shape("دب"), vec![0xFEA9, 0xFE90]);
    assert_eq!(shape("بد"), vec![0xFE91, 0xFEAA]);
}

#[test]
fn alef_wasla_forms() {
    // ٱ alone is isolated; after a joining letter it takes its final form.
    assert_eq!(shape("ٱ"), vec![0xFB50]);
    assert_eq!(shape("بٱ"), vec![0xFE91, 0xFB51]);
}

#[test]
fn lam_alef_ligature() {
    assert_eq!(shape("لا"), vec![0xFEFB]);
    assert_eq!(shape("بلا"), vec![0xFE91, 0xFEFC]);
    // A transparent mark between lam and alef is kept inside the ligature.
    assert_eq!(shape("ل\u{064E}ا"), vec![0xFEFB, 0x064E]);
}

#[test]
fn zwnj_is_dropped_and_breaks_joining() {
    assert_eq!(shape("ب\u{200C}ب"), vec![0xFE8F, 0xFE8F]);
    assert!(!shape("\u{200C}لا\u{200C}مـ\u{200C}").contains(&0x200C));
    // ZWJ makes a letter join without being a letter itself.
    assert_eq!(shape("ب\u{200D}"), vec![0xFE91, 0x200D]);
}

#[test]
fn non_joining_text_unchanged() {
    let s = codepoints("abc 123 ءשלום");
    assert_eq!(shape_arabic(&s), s);
}

#[test]
fn shaping_never_lengthens() {
    let s = codepoints("السلام عليكم لا إله");
    assert!(shape_arabic(&s).len() <= s.len());
    assert_eq!(shaped_codepoints("لا"), Some(vec![0xFEFB]));
}

#[test]
fn visible_text_skips_invalid_codepoints() {
    assert_eq!(visible_text(&vec![0x41, 0xD800, 0x42, 0x110000, 0xFEFB]), "AB\u{FEFB}");
    assert_eq!(visible_text(&vec![]), "");
}

#[test]
fn tk_argv_options() {
    assert_eq!(tk_argv(0, None), None);
    assert_eq!(tk_argv(1, None).as_deref(), Some("-sync"));
    assert_eq!(tk_argv(0, Some("0x2a")).as_deref(), Some("-use 0x2a"));
    assert_eq!(tk_argv(7, Some("0x2a")).as_deref(), Some("-sync -use 0x2a"));
}

#[test]
fn shaped_length_is_exact() {
    // Six codepoints, one ZWNJ and one lam-alef pair: four come out.
    let source = "بلا\u{200C}سم";
    assert_eq!(codepoints(source).len(), 6);
    assert_eq!(shape(source).len(), 4);
    // A mark between lam and alef stays inside the ligature.
    assert_eq!(shape("ل\u{064E}ا").len(), 2);
}

#[test]
fn joining_letters_take_presentation_forms() {
    let presentation = |v: u32| (0xFB50..=0xFDFF).contains(&v) || (0xFE70..=0xFEFE).contains(&v);
    for &(base, isolated, fin) in RTL_JOIN.iter() {
        assert!(presentation(isolated) && presentation(fin), "{base:#x}");
        assert_eq!(shape_arabic(&vec![base]), vec![isolated]);
    }
    for &(base, isolated, fin, initial, medial) in DUAL_JOIN.iter() {
        assert!(presentation(isolated) && presentation(fin), "{base:#x}");
        assert!(presentation(initial) && presentation(medial), "{base:#x}");
        assert_eq!(shape_arabic(&vec![base, base, base]), vec![initial, medial, fin]);
    }
}
