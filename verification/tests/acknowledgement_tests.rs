use askalono::{Store, TextData};
use two_face::acknowledgement::{Acknowledgements, ClassifyError, License, LicenseType};

const MIT_TEXT: &str = "\
MIT License

Permission is hereby granted, free of charge, to any person obtaining a copy
of this software and associated documentation files (the \"Software\"), to deal
in the Software without restriction, including without limitation the rights
to use, copy, modify, merge, publish, distribute, sublicense, and/or sell
copies of the Software, and to permit persons to whom the Software is
furnished to do so, subject to the following conditions:

The above copyright notice and this permission notice shall be included in all
copies or substantial portions of the Software.

THE SOFTWARE IS PROVIDED \"AS IS\", WITHOUT WARRANTY OF ANY KIND, EXPRESS OR
IMPLIED, INCLUDING BUT NOT LIMITED TO THE WARRANTIES OF MERCHANTABILITY,
FITNESS FOR A PARTICULAR PURPOSE AND NONINFRINGEMENT. IN NO EVENT SHALL THE
AUTHORS OR COPYRIGHT HOLDERS BE LIABLE FOR ANY CLAIM, DAMAGES OR OTHER
LIABILITY, WHETHER IN AN ACTION OF CONTRACT, TORT OR OTHERWISE, ARISING FROM,
OUT OF OR IN CONNECTION WITH THE SOFTWARE OR THE USE OR OTHER DEALINGS IN THE
SOFTWARE.
";

const UNLICENSE_TEXT: &str = "\
This is free and unencumbered software released into the public domain.

Anyone is free to copy, modify, publish, use, compile, sell, or
distribute this software, either in source code form or as a compiled
binary, for any purpose, commercial or non-commercial, and by any
means.

In jurisdictions that recognize copyright laws, the author or authors
of this software dedicate any and all copyright interest in the
software to the public domain. We make this dedication for the benefit
of the public at large and to the detriment of our heirs and
successors. We intend this dedication to be an overt act of
relinquishment in perpetuity of all present and future rights to this
software under copyright law.

THE SOFTWARE IS PROVIDED \"AS IS\", WITHOUT WARRANTY OF ANY KIND,
EXPRESS OR IMPLIED, INCLUDING BUT NOT LIMITED TO THE WARRANTIES OF
MERCHANTABILITY, FITNESS FOR A PARTICULAR PURPOSE AND NONINFRINGEMENT.
IN NO EVENT SHALL THE AUTHORS BE LIABLE FOR ANY CLAIM, DAMAGES OR
OTHER LIABILITY, WHETHER IN AN ACTION OF CONTRACT, TORT OR OTHERWISE,
ARISING FROM, OUT OF OR IN CONNECTION WITH THE SOFTWARE OR THE USE OR
OTHER DEALINGS IN THE SOFTWARE.

For more information, please refer to <http://unlicense.org/>
";

const SUBLIME_TEXT: &str = "A stand-in for the vendored Sublime license text\n";

fn reference_store() -> Store {
    let mut store = Store::new();
    store.add_license("MIT".to_owned(), TextData::from(MIT_TEXT));
    store.add_license("Unlicense".to_owned(), TextData::from(UNLICENSE_TEXT));
    store
}

/// Classifies the way the generation pipeline does: the exact Sublime check
/// first, then a fuzzy match thresholded at 0.9.
fn classify(store: &Store, text: &str) -> Result<LicenseType, ClassifyError> {
    match LicenseType::classify_exact(text, SUBLIME_TEXT) {
        Some(ty) => Ok(ty),
        None => {
            let matched = store.analyze(&TextData::from(text));
            LicenseType::classify_fuzzy(matched.name, matched.score > 0.9)
        }
    }
}

#[test]
fn mit_text_classifies_as_mit() {
    let store = reference_store();
    let ty = classify(&store, MIT_TEXT).unwrap();
    assert_eq!(ty, LicenseType::Mit);
    assert!(ty.needs_acknowledgement());
}

#[test]
fn unlicense_text_classifies_as_unlicense() {
    let store = reference_store();
    let ty = classify(&store, UNLICENSE_TEXT).unwrap();
    assert_eq!(ty, LicenseType::Unlicense);
    assert!(!ty.needs_acknowledgement());
}

#[test]
fn unknown_text_fails_classification() {
    let store = reference_store();
    let result = classify(&store, "A grocery list:\n- apples\n- oat milk\n");
    assert_eq!(result, Err(ClassifyError::LowConfidence));
}

#[test]
fn sublime_text_classifies_exactly() {
    let store = reference_store();
    let ty = classify(&store, SUBLIME_TEXT).unwrap();
    assert_eq!(ty, LicenseType::Sublime);
    assert!(!ty.needs_acknowledgement());
}

#[test]
fn unmapped_family_name_is_rejected() {
    assert_eq!(
        LicenseType::classify_fuzzy("LGPL-3.0", true),
        Err(ClassifyError::UnrecognizedFamily)
    );
    assert_eq!(
        LicenseType::classify_fuzzy("MIT", false),
        Err(ClassifyError::LowConfidence)
    );
    assert_eq!(LicenseType::classify_fuzzy("MIT", true), Ok(LicenseType::Mit));
    assert_eq!(
        LicenseType::classify_fuzzy("Apache-2.0", true),
        Ok(LicenseType::Apache2)
    );
}

#[test]
fn needs_acknowledgement_per_type() {
    assert!(LicenseType::Mit.needs_acknowledgement());
    assert!(LicenseType::Bsd2Clause.needs_acknowledgement());
    assert!(LicenseType::Bsd2ClauseFreeBsd.needs_acknowledgement());
    assert!(LicenseType::Bsd3Clause.needs_acknowledgement());
    assert!(LicenseType::Apache2.needs_acknowledgement());
    assert!(!LicenseType::Sublime.needs_acknowledgement());
    assert!(!LicenseType::Unlicense.needs_acknowledgement());
    assert!(!LicenseType::Wtfpl.needs_acknowledgement());
}

fn sample_acknowledgements() -> Acknowledgements {
    let syntax_license = License {
        ty: LicenseType::Mit,
        text: "Some MIT license text".to_owned(),
        rel_path: "syntaxes/01_Packages/Rust/LICENSE.txt".to_owned(),
    };
    let theme_license = License {
        ty: LicenseType::Wtfpl,
        text: "Theme license text".to_owned(),
        rel_path: "themes/1337-Scheme/LICENSE".to_owned(),
    };
    Acknowledgements::new(vec![syntax_license], vec![theme_license])
}

#[test]
fn to_md_renders_exact_document() {
    let acks = sample_acknowledgements();
    let expected = "Most of the code for generating both theme and syntax dumps along with the\n\
curation of said themes and syntaxes is taken from the\n\
[`bat` project](https://github.com/sharkdp/bat).\n\
\n\
# Syntaxes\n\
\n\
<details>\n\
<summary>syntaxes/01_Packages/Rust/LICENSE.txt</summary>\n\
\n\
````text\n\
Some MIT license text\n\
````\n\
</details>\n\
\n\
# Themes\n\
\n\
<details>\n\
<summary>themes/1337-Scheme/LICENSE</summary>\n\
\n\
````text\n\
Theme license text\n\
````\n\
</details>\n\
\n";
    assert_eq!(acks.to_md(), expected);
}

#[test]
fn to_md_skips_empty_groups() {
    let empty = Acknowledgements::new(vec![], vec![]);
    let expected = "Most of the code for generating both theme and syntax dumps along with the\n\
curation of said themes and syntaxes is taken from the\n\
[`bat` project](https://github.com/sharkdp/bat).\n";
    assert_eq!(empty.to_md(), expected);

    let only_syntax = Acknowledgements::new(
        vec![License {
            ty: LicenseType::Mit,
            text: "text".to_owned(),
            rel_path: "a/LICENSE".to_owned(),
        }],
        vec![],
    );
    let rendered = only_syntax.to_md();
    assert!(rendered.contains("# Syntaxes"));
    assert!(!rendered.contains("# Themes"));
}

#[test]
fn write_md_appends_one_section() {
    let license = License {
        ty: LicenseType::Mit,
        text: "body".to_owned(),
        rel_path: "some/path".to_owned(),
    };
    let mut md = String::from("start:");
    license.write_md(&mut md);
    assert_eq!(
        md,
        "start:<details>\n<summary>some/path</summary>\n\n````text\nbody\n````\n</details>\n\n"
    );
}

#[test]
fn filter_keeps_only_licenses_needing_acknowledgement() {
    let acks = sample_acknowledgements();
    let filtered = acks.filter_needs_acknowledgement();
    assert_eq!(filtered.for_syntaxes().len(), 1);
    assert_eq!(filtered.for_syntaxes()[0].ty, LicenseType::Mit);
    assert!(filtered.for_themes().is_empty());
}

#[test]
fn acknowledgement_urls_are_stable() {
    assert_eq!(
        two_face::acknowledgement_url(),
        "https://github.com/CosmicHorrorDev/two-face/blob/v0.5.0/generated/acknowledgements_full.md"
    );
    assert_eq!(two_face::acknowledgement::url(), two_face::acknowledgement_url());
}
