use vstd::prelude::*;
use vstd::string::StringExecFns;

verus! {

/// Holds the license type, text, and relative path for a syntax or theme
/// definition
#[derive(Clone, Debug, PartialEq, Eq)]
pub struct License {
    pub ty: LicenseType,
    pub text: String,
    pub rel_path: String,
}

/// The Markdown section that a single license renders to: a collapsible
/// `<details>` block whose summary is the file's relative path and whose body
/// is the license text inside a fenced code block.
pub open spec fn license_md(l: License) -> Seq<char> {
    "<details>\n<summary>"@ + l.rel_path@ + "</summary>\n\n````text\n"@ + l.text@
        + "\n````\n</details>\n\n"@
}

impl License {
    /// Appends a section for this license to `md`
    pub fn write_md(&self, md: &mut String)
        ensures
            final(md)@ == old(md)@ + license_md(*self),
    {
        md.append("<details>\n<summary>");
        md.append(self.rel_path.as_str());
        md.append("</summary>\n\n````text\n");
        md.append(self.text.as_str());
        md.append("\n````\n</details>\n\n");
        proof {
            assert(md@ =~= old(md)@ + license_md(*self));
        }
    }

    /// Whether or not this type of license requires acknowledgement
    pub fn needs_acknowledgement(&self) -> (r: bool)
        ensures
            r == needs_ack(self.ty),
    {
        self.ty.needs_acknowledgement()
    }
}

/// The full range of included licenses
///
/// Disclaimer: I am not a lawyer
#[derive(Clone, Copy, Debug, Hash, PartialEq, Eq, PartialOrd, Ord, Structural)]
pub enum LicenseType {
    /// Sublime's custom license
    Sublime,
    /// [MIT License](https://choosealicense.com/licenses/mit/)
    Mit,
    /// [BSD 2-Clause License](https://choosealicense.com/licenses/bsd-2-clause/)
    Bsd2Clause,
    /// The FreeBSD variant of the BSD 2-Clause license
    Bsd2ClauseFreeBsd,
    /// [The Unlicense](https://choosealicense.com/licenses/unlicense/)
    Unlicense,
    /// [BSD 3-Clause License](https://choosealicense.com/licenses/bsd-3-clause/)
    Bsd3Clause,
    /// [Apache License 2.0](https://choosealicense.com/licenses/apache-2.0/)
    Apache2,
    /// [Do What The F*ck You Want To Public License](https://choosealicense.com/licenses/wtfpl/)
    Wtfpl,
}

/// Which license families legally require an acknowledgement to be shipped
/// alongside the asset they cover.
pub open spec fn needs_ack(t: LicenseType) -> bool {
    match t {
        LicenseType::Mit => true,
        LicenseType::Bsd2Clause => true,
        LicenseType::Bsd2ClauseFreeBsd => true,
        LicenseType::Bsd3Clause => true,
        LicenseType::Apache2 => true,
        LicenseType::Sublime => false,
        LicenseType::Unlicense => false,
        LicenseType::Wtfpl => false,
    }
}

impl LicenseType {
    /// Whether or not the license requires acknowledgement
    pub fn needs_acknowledgement(&self) -> (r: bool)
        ensures
            r == needs_ack(*self),
    {
        match self {
            Self::Mit | Self::Bsd2Clause | Self::Bsd2ClauseFreeBsd | Self::Bsd3Clause
                | Self::Apache2 => true,
            Self::Sublime | Self::Unlicense | Self::Wtfpl => false,
        }
    }
}

/// Holds all the license information for embedded syntaxes and themes
#[derive(Clone, Debug, PartialEq, Eq)]
pub struct Acknowledgements {
    pub(crate) for_syntaxes: Vec<License>,
    pub(crate) for_themes: Vec<License>,
}

/// The mathematical content of an [`Acknowledgements`] value: the two ordered
/// runs of licenses it holds.
pub struct AckView {
    pub for_syntaxes: Seq<License>,
    pub for_themes: Seq<License>,
}

impl View for Acknowledgements {
    type V = AckView;

    closed spec fn view(&self) -> AckView {
        AckView { for_syntaxes: self.for_syntaxes@, for_themes: self.for_themes@ }
    }
}

/// Whether a license requires acknowledgement, as a predicate on license
/// records.
pub open spec fn needs_ack_pred() -> spec_fn(License) -> bool {
    |l: License| needs_ack(l.ty)
}

/// The attribution paragraph that opens the acknowledgement document.
pub const BAT_ACK: &'static str = "Most of the code for generating both theme and syntax dumps along with the\ncuration of said themes and syntaxes is taken from the\n[`bat` project](https://github.com/sharkdp/bat).\n";

/// The Markdown sections of a run of licenses, one after the other, in order.
pub open spec fn licenses_md(s: Seq<License>) -> Seq<char>
    decreases s.len(),
{
    if s.len() == 0 {
        Seq::empty()
    } else {
        licenses_md(s.drop_last()) + license_md(s.last())
    }
}

/// The whole acknowledgement document: an attribution paragraph, then a
/// `# Syntaxes` heading with one section per syntax license, then a
/// `# Themes` heading with one section per theme license. A heading is left
/// out altogether when its group of licenses is empty.
pub open spec fn ack_md(a: AckView) -> Seq<char> {
    BAT_ACK@ + (if a.for_syntaxes.len() > 0 {
        "\n# Syntaxes\n\n"@ + licenses_md(a.for_syntaxes)
    } else {
        Seq::empty()
    }) + (if a.for_themes.len() > 0 {
        "# Themes\n\n"@ + licenses_md(a.for_themes)
    } else {
        Seq::empty()
    })
}

impl Acknowledgements {
    /// Returns all of the acknowledgements specifically for embedded syntax
    /// definitions
    pub fn for_syntaxes(&self) -> (r: &[License])
        ensures
            r@ == self@.for_syntaxes,
    {
        self.for_syntaxes.as_slice()
    }

    /// Returns all of the acknowledgements specifically for embedded theme
    /// definitions
    pub fn for_themes(&self) -> (r: &[License])
        ensures
            r@ == self@.for_themes,
    {
        self.for_themes.as_slice()
    }

    /// Builds the aggregate from the two ordered runs of licenses.
    pub fn new(for_syntaxes: Vec<License>, for_themes: Vec<License>) -> (r: Acknowledgements)
        ensures
            r@.for_syntaxes == for_syntaxes@,
            r@.for_themes == for_themes@,
    {
        Acknowledgements { for_syntaxes, for_themes }
    }

    /// Display the license information as Markdown
    pub fn to_md(&self) -> (r: String)
        ensures
            r@ == ack_md(self@),
    {
        let mut md = BAT_ACK.to_owned();

        if !self.for_syntaxes.is_empty() {
            md.append("\n# Syntaxes\n\n");
            let mut i: usize = 0;
            while i < self.for_syntaxes.len()
                invariant
                    i <= self.for_syntaxes@.len(),
                    md@ == BAT_ACK@ + "\n# Syntaxes\n\n"@ + licenses_md(
                        self.for_syntaxes@.take(i as int),
                    ),
                decreases self.for_syntaxes@.len() - i,
            {
                self.for_syntaxes[i].write_md(&mut md);
                proof {
                    assert(self.for_syntaxes@.take(i + 1).drop_last() =~= self.for_syntaxes@.take(
                        i as int,
                    ));
                    assert(self.for_syntaxes@.take(i + 1).last() == self.for_syntaxes@[i as int]);
                    assert(md@ =~= BAT_ACK@ + "\n# Syntaxes\n\n"@ + licenses_md(
                        self.for_syntaxes@.take(i + 1),
                    ));
                }
                i += 1;
            }
            proof {
                assert(self.for_syntaxes@.take(i as int) =~= self.for_syntaxes@);
            }
        }

        if !self.for_themes.is_empty() {
            md.append("# Themes\n\n");
            let ghost base: Seq<char> = md@;
            let mut i: usize = 0;
            while i < self.for_themes.len()
                invariant
                    i <= self.for_themes@.len(),
                    md@ == base + licenses_md(self.for_themes@.take(i as int)),
                decreases self.for_themes@.len() - i,
            {
                self.for_themes[i].write_md(&mut md);
                proof {
                    assert(self.for_themes@.take(i + 1).drop_last() =~= self.for_themes@.take(
                        i as int,
                    ));
                    assert(self.for_themes@.take(i + 1).last() == self.for_themes@[i as int]);
                    assert(md@ =~= base + licenses_md(self.for_themes@.take(i + 1)));
                }
                i += 1;
            }
            proof {
                assert(self.for_themes@.take(i as int) =~= self.for_themes@);
            }
        }

        proof {
            assert(md@ =~= ack_md(self@));
        }
        md
    }

    /// Keeps only the licenses whose type legally requires acknowledgement:
    /// the embedded acknowledgement data carries just these, while the full
    /// rendered document keeps everything.
    pub fn filter_needs_acknowledgement(self) -> (r: Acknowledgements)
        ensures
            r@.for_syntaxes == self@.for_syntaxes.filter(needs_ack_pred()),
            r@.for_themes == self@.for_themes.filter(needs_ack_pred()),
    {
        let Acknowledgements { for_syntaxes, for_themes } = self;
        let for_syntaxes = filter_licenses(for_syntaxes);
        let for_themes = filter_licenses(for_themes);
        Acknowledgements { for_syntaxes, for_themes }
    }
}

/// Keeps the licenses that require acknowledgement, in order.
fn filter_licenses(licenses: Vec<License>) -> (r: Vec<License>)
    ensures
        r@ == licenses@.filter(needs_ack_pred()),
{
    let ghost orig = licenses@;
    let mut rest = licenses;
    let mut out: Vec<License> = Vec::new();
    let mut taken: usize = 0;
    let orig_len = rest.len();
    proof {
        reveal_with_fuel(Seq::filter, 2);
        assert(orig.len() == orig_len);
        assert(rest@ =~= orig.skip(0));
        assert(orig.take(0).filter(needs_ack_pred()) =~= Seq::empty());
    }
    while rest.len() > 0
        invariant
            taken + rest@.len() == orig.len(),
            orig.len() <= usize::MAX,
            rest@ == orig.skip(taken as int),
            out@ == orig.take(taken as int).filter(needs_ack_pred()),
        decreases rest@.len(),
    {
        let ghost k = taken as int;
        let license = rest.remove(0);
        proof {
            assert(license == orig[k]);
            assert(rest@ =~= orig.skip(k + 1));
        }
        let keep = license.needs_acknowledgement();
        if keep {
            out.push(license);
        }
        proof {
            reveal_with_fuel(Seq::filter, 2);
            let step = orig.take(k + 1);
            assert(step.drop_last() =~= orig.take(k));
            assert(step.last() == orig[k]);
            assert(step.len() != 0);
            assert(step.filter(needs_ack_pred()) == if needs_ack_pred()(orig[k]) {
                orig.take(k).filter(needs_ack_pred()).push(orig[k])
            } else {
                orig.take(k).filter(needs_ack_pred())
            });
            assert(out@ == step.filter(needs_ack_pred()));
        }
        taken += 1;
    }
    proof {
        assert(orig.take(taken as int) =~= orig);
    }
    out
}

} // verus!
