//! The configuration record: the metadata of the project to generate.

use vstd::prelude::*;
use crate::text::{decimal, decimal_i32, replace_each, same_text};

verus! {

/// The license of the generated project: one of three well-known licenses,
/// or any other, given by its label.
#[derive(Debug, PartialEq, Eq)]
pub enum LicenseType {
    MIT,
    Apache2,
    GPL3,
    Custom(String),
}

/// What a [`LicenseType`] is to a contract: the same choice, its label as
/// a sequence of characters.
pub enum LicenseView {
    MIT,
    Apache2,
    GPL3,
    Custom(Seq<char>),
}

impl View for LicenseType {
    type V = LicenseView;

    open spec fn view(&self) -> LicenseView {
        match self {
            LicenseType::MIT => LicenseView::MIT,
            LicenseType::Apache2 => LicenseView::Apache2,
            LicenseType::GPL3 => LicenseView::GPL3,
            LicenseType::Custom(s) => LicenseView::Custom(s@),
        }
    }
}

impl LicenseView {
    /// The label under which the license appears in generated files.
    pub open spec fn label(self) -> Seq<char> {
        match self {
            LicenseView::MIT => "MIT"@,
            LicenseView::Apache2 => "Apache-2.0"@,
            LicenseView::GPL3 => "GPL-3.0"@,
            LicenseView::Custom(s) => s,
        }
    }

    /// The license that a label stands for: the three well-known labels
    /// name their licenses, any other text is a custom license.
    pub open spec fn from_label(label: Seq<char>) -> LicenseView {
        if label == "MIT"@ {
            LicenseView::MIT
        } else if label == "Apache-2.0"@ {
            LicenseView::Apache2
        } else if label == "GPL-3.0"@ {
            LicenseView::GPL3
        } else {
            LicenseView::Custom(label)
        }
    }

    /// The license that a command-line word stands for: `MIT`, `Apache2`
    /// and `GPL3` name the well-known licenses, any other word is a custom
    /// license with that word as its label.
    pub open spec fn from_flag(word: Seq<char>) -> LicenseView {
        if word == "MIT"@ {
            LicenseView::MIT
        } else if word == "Apache2"@ {
            LicenseView::Apache2
        } else if word == "GPL3"@ {
            LicenseView::GPL3
        } else {
            LicenseView::Custom(word)
        }
    }
}

impl Clone for LicenseType {
    fn clone(&self) -> (copy: LicenseType)
        ensures
            copy@ == self@,
    {
        match self {
            LicenseType::MIT => LicenseType::MIT,
            LicenseType::Apache2 => LicenseType::Apache2,
            LicenseType::GPL3 => LicenseType::GPL3,
            LicenseType::Custom(s) => LicenseType::Custom(s.clone()),
        }
    }
}

impl LicenseType {
    /// The label under which the license appears in generated files.
    pub fn as_str(&self) -> (label: &str)
        ensures
            label@ == self@.label(),
    {
        match self {
            LicenseType::MIT => "MIT",
            LicenseType::Apache2 => "Apache-2.0",
            LicenseType::GPL3 => "GPL-3.0",
            LicenseType::Custom(s) => s.as_str(),
        }
    }

    /// Reads a license from its label, as a form offers it for selection.
    pub fn from_label(label: &str) -> (license: LicenseType)
        ensures
            license@ == LicenseView::from_label(label@),
    {
        if same_text(label, "MIT") {
            LicenseType::MIT
        } else if same_text(label, "Apache-2.0") {
            LicenseType::Apache2
        } else if same_text(label, "GPL-3.0") {
            LicenseType::GPL3
        } else {
            LicenseType::Custom(label.to_owned())
        }
    }

    /// Reads a license from the word given on a command line.
    pub fn from_flag(word: &str) -> (license: LicenseType)
        ensures
            license@ == LicenseView::from_flag(word@),
    {
        if same_text(word, "MIT") {
            LicenseType::MIT
        } else if same_text(word, "Apache2") {
            LicenseType::Apache2
        } else if same_text(word, "GPL3") {
            LicenseType::GPL3
        } else {
            LicenseType::Custom(word.to_owned())
        }
    }
}

/// The description of the project to generate. A value of this type is
/// never changed once built; `version_support` and `help_support` are read
/// by what is generated, not by the engine.
#[derive(Debug, PartialEq, Eq)]
pub struct CliConfig {
    pub name: String,
    pub short_description: String,
    pub long_description: String,
    pub author: String,
    pub copyright: String,
    pub license: LicenseType,
    pub repository: String,
    pub version: String,
    pub sw_cli_url: String,
    pub version_support: bool,
    pub help_support: bool,
}

/// What a [`CliConfig`] is to a contract: the same record, its texts as
/// sequences of characters.
pub struct CliConfigView {
    pub name: Seq<char>,
    pub short_description: Seq<char>,
    pub long_description: Seq<char>,
    pub author: Seq<char>,
    pub copyright: Seq<char>,
    pub license: LicenseView,
    pub repository: Seq<char>,
    pub version: Seq<char>,
    pub sw_cli_url: Seq<char>,
    pub version_support: bool,
    pub help_support: bool,
}

impl View for CliConfig {
    type V = CliConfigView;

    open spec fn view(&self) -> CliConfigView {
        CliConfigView {
            name: self.name@,
            short_description: self.short_description@,
            long_description: self.long_description@,
            author: self.author@,
            copyright: self.copyright@,
            license: self.license@,
            repository: self.repository@,
            version: self.version@,
            sw_cli_url: self.sw_cli_url@,
            version_support: self.version_support,
            help_support: self.help_support,
        }
    }
}

/// The name of the project as an identifier: every hyphen of `name`
/// becomes an underscore, and no other character changes.
pub open spec fn crate_name_of(name: Seq<char>) -> Seq<char> {
    replace_each(name, '-', '_')
}

impl CliConfigView {
    /// The name of the project as an identifier.
    pub open spec fn crate_name(self) -> Seq<char> {
        crate_name_of(self.name)
    }

    /// The copyright line of a project begun in `year`.
    pub open spec fn copyright_in(year: int) -> Seq<char> {
        "Copyright (c) "@ + decimal(year)
    }

    /// The configuration a form starts from in the year `year`.
    pub open spec fn initial(year: int) -> CliConfigView {
        CliConfigView {
            name: "my-cli"@,
            short_description: "A brief description of the CLI"@,
            long_description: "A longer description of what this CLI does"@,
            author: "Your Name"@,
            copyright: Self::copyright_in(year),
            license: LicenseView::MIT,
            repository: "https://github.com/yourusername/my-cli"@,
            version: "0.1.0"@,
            sw_cli_url: "https://github.com/softwarewrighter/sw-cli.git"@,
            version_support: true,
            help_support: true,
        }
    }

    /// The configuration that command-line options describe in the year
    /// `year`: an option that was not given takes its initial value, and so
    /// does every field for which there is no option.
    pub open spec fn from_options(
        year: int,
        name: Seq<char>,
        short_description: Option<Seq<char>>,
        long_description: Option<Seq<char>>,
        copyright: Option<Seq<char>>,
        license: Seq<char>,
        version_support: bool,
        help_support: bool,
    ) -> CliConfigView {
        CliConfigView {
            name,
            short_description: match short_description {
                Some(s) => s,
                None => Self::initial(year).short_description,
            },
            long_description: match long_description {
                Some(s) => s,
                None => Self::initial(year).long_description,
            },
            copyright: match copyright {
                Some(s) => s,
                None => Self::copyright_in(year),
            },
            license: LicenseView::from_flag(license),
            version_support,
            help_support,
            ..Self::initial(year)
        }
    }
}

/// The view of an optional text.
pub open spec fn optional_text(s: Option<String>) -> Option<Seq<char>> {
    match s {
        Some(s) => Some(s@),
        None => None,
    }
}

impl Clone for CliConfig {
    fn clone(&self) -> (copy: CliConfig)
        ensures
            copy@ == self@,
    {
        CliConfig {
            name: self.name.clone(),
            short_description: self.short_description.clone(),
            long_description: self.long_description.clone(),
            author: self.author.clone(),
            copyright: self.copyright.clone(),
            license: self.license.clone(),
            repository: self.repository.clone(),
            version: self.version.clone(),
            sw_cli_url: self.sw_cli_url.clone(),
            version_support: self.version_support,
            help_support: self.help_support,
        }
    }
}

/// The calendar year of the current date in UTC: `chrono::Utc::now` reads
/// the system clock, and `date_naive` and `Datelike::year` give the year
/// of its date. The body is not verified, and nothing is claimed of the
/// value, which depends on when the call is made. `chrono` has no failure
/// value for a clock that stands before 1970: it stops the program there.
#[verifier::external_body]
fn current_year() -> (year: i32) {
    chrono::Datelike::year(&chrono::Utc::now().date_naive())
}

impl CliConfig {
    /// The name of the project as an identifier: hyphens become
    /// underscores.
    pub fn crate_name(&self) -> (id: String)
        ensures
            id@ == self@.crate_name(),
    {
        let mut id = String::new();
        for c in it: self.name.as_str().chars()
            invariant
                it.seq() == self.name@,
                id@ == crate_name_of(self.name@).take(it.index() as int),
        {
            if c == '-' {
                id.push('_');
            } else {
                id.push(c);
            }
            assert(id@ =~= crate_name_of(self.name@).take(it.index() + 1));
        }
        assert(id@ =~= crate_name_of(self.name@));
        id
    }

    /// The copyright line of a project begun in `year`.
    pub fn copyright_in(year: i32) -> (line: String)
        ensures
            line@ == CliConfigView::copyright_in(year as int),
    {
        let mut line = "Copyright (c) ".to_owned();
        let digits = decimal_i32(year);
        line.append(digits.as_str());
        line
    }

    /// The configuration a form starts from in the year `year`.
    pub fn initial(year: i32) -> (config: CliConfig)
        ensures
            config@ == CliConfigView::initial(year as int),
    {
        CliConfig {
            name: "my-cli".to_owned(),
            short_description: "A brief description of the CLI".to_owned(),
            long_description: "A longer description of what this CLI does".to_owned(),
            author: "Your Name".to_owned(),
            copyright: Self::copyright_in(year),
            license: LicenseType::MIT,
            repository: "https://github.com/yourusername/my-cli".to_owned(),
            version: "0.1.0".to_owned(),
            sw_cli_url: "https://github.com/softwarewrighter/sw-cli.git".to_owned(),
            version_support: true,
            help_support: true,
        }
    }

    /// The configuration that command-line options describe in the year
    /// `year`.
    pub fn from_options_in(
        year: i32,
        name: String,
        short_description: Option<String>,
        long_description: Option<String>,
        copyright: Option<String>,
        license: &str,
        version_support: bool,
        help_support: bool,
    ) -> (config: CliConfig)
        ensures
            config@ == CliConfigView::from_options(
                year as int,
                name@,
                optional_text(short_description),
                optional_text(long_description),
                optional_text(copyright),
                license@,
                version_support,
                help_support,
            ),
    {
        let base = Self::initial(year);
        CliConfig {
            name,
            short_description: match short_description {
                Some(s) => s,
                None => base.short_description,
            },
            long_description: match long_description {
                Some(s) => s,
                None => base.long_description,
            },
            author: base.author,
            copyright: match copyright {
                Some(s) => s,
                None => base.copyright,
            },
            license: LicenseType::from_flag(license),
            repository: base.repository,
            version: base.version,
            sw_cli_url: base.sw_cli_url,
            version_support,
            help_support,
        }
    }

    /// The configuration that command-line options describe today: that of
    /// [`CliConfig::from_options_in`] for the year the system clock shows.
    /// The clock is read only where no copyright line was given.
    pub fn from_options(
        name: String,
        short_description: Option<String>,
        long_description: Option<String>,
        copyright: Option<String>,
        license: &str,
        version_support: bool,
        help_support: bool,
    ) -> (config: CliConfig)
        ensures
            exists|year: i32|
                config@ == CliConfigView::from_options(
                    year as int,
                    name@,
                    optional_text(short_description),
                    optional_text(long_description),
                    optional_text(copyright),
                    license@,
                    version_support,
                    help_support,
                ),
    {
        let year: i32 = if copyright.is_none() {
            current_year()
        } else {
            0
        };
        Self::from_options_in(
            year,
            name,
            short_description,
            long_description,
            copyright,
            license,
            version_support,
            help_support,
        )
    }
}

impl Default for CliConfig {
    /// The configuration a form starts from today: that of
    /// [`CliConfig::initial`] for the year the system clock shows.
    fn default() -> (config: CliConfig)
        ensures
            exists|year: i32| config@ == CliConfigView::initial(year as int),
    {
        let year = current_year();
        Self::initial(year)
    }
}

/// A field of the configuration that must not be empty.
#[derive(Clone, Copy, Debug, PartialEq, Eq, Structural)]
pub enum Field {
    Name,
    ShortDescription,
    LongDescription,
}

/// Why a configuration is turned down.
#[derive(Clone, Copy, Debug, PartialEq, Eq, Structural)]
pub enum ValidationError {
    /// The field is empty.
    EmptyField(Field),
}

impl CliConfigView {
    /// The verdict on a configuration: the first of `name`,
    /// `short_description` and `long_description` that is empty is named;
    /// no other field is looked at.
    pub open spec fn validation(self) -> Result<(), ValidationError> {
        if self.name.len() == 0 {
            Err(ValidationError::EmptyField(Field::Name))
        } else if self.short_description.len() == 0 {
            Err(ValidationError::EmptyField(Field::ShortDescription))
        } else if self.long_description.len() == 0 {
            Err(ValidationError::EmptyField(Field::LongDescription))
        } else {
            Ok(())
        }
    }
}

impl ValidationError {
    /// The sentence that tells a user what is wrong.
    pub open spec fn text(self) -> Seq<char> {
        match self {
            ValidationError::EmptyField(Field::Name) => "CLI name cannot be empty"@,
            ValidationError::EmptyField(Field::ShortDescription) =>
                "Short description cannot be empty"@,
            ValidationError::EmptyField(Field::LongDescription) =>
                "Long description cannot be empty"@,
        }
    }

    /// The sentence that tells a user what is wrong.
    pub fn message(&self) -> (sentence: String)
        ensures
            sentence@ == self.text(),
    {
        match self {
            ValidationError::EmptyField(Field::Name) => "CLI name cannot be empty".to_owned(),
            ValidationError::EmptyField(Field::ShortDescription) =>
                "Short description cannot be empty".to_owned(),
            ValidationError::EmptyField(Field::LongDescription) =>
                "Long description cannot be empty".to_owned(),
        }
    }
}

/// The three files of the minimal profile, as texts.
#[derive(Debug, PartialEq, Eq)]
pub struct GeneratedFiles {
    pub build_rs: String,
    pub config_rs: String,
    pub dispatch_rs: String,
}

impl Clone for GeneratedFiles {
    fn clone(&self) -> (copy: GeneratedFiles)
        ensures
            copy.build_rs@ == self.build_rs@,
            copy.config_rs@ == self.config_rs@,
            copy.dispatch_rs@ == self.dispatch_rs@,
    {
        GeneratedFiles {
            build_rs: self.build_rs.clone(),
            config_rs: self.config_rs.clone(),
            dispatch_rs: self.dispatch_rs.clone(),
        }
    }
}

/// The identifier of a name is as long as the name and holds no hyphen:
/// where the name has a hyphen it has an underscore, and everywhere else
/// the character of the name.
pub proof fn lemma_crate_name(name: Seq<char>)
    ensures
        crate_name_of(name).len() == name.len(),
        forall|i: int|
            0 <= i < name.len() ==> #[trigger] crate_name_of(name)[i] == if name[i] == '-' {
                '_'
            } else {
                name[i]
            },
        forall|i: int| 0 <= i < name.len() ==> #[trigger] crate_name_of(name)[i] != '-',
{
}

/// A license that is read from a label has that label.
pub proof fn lemma_label_read_back(label: Seq<char>)
    ensures
        LicenseView::from_label(label).label() == label,
{
}

/// A configuration is valid if and only if none of `name`,
/// `short_description` and `long_description` is empty, whatever its other
/// fields hold; the error names a field that is empty.
pub proof fn lemma_validation_total(config: CliConfigView)
    ensures
        config.validation() is Ok <==> config.name.len() > 0 && config.short_description.len() > 0
            && config.long_description.len() > 0,
        config.validation() == Err::<(), ValidationError>(
            ValidationError::EmptyField(Field::Name),
        ) ==> config.name.len() == 0,
        config.validation() == Err::<(), ValidationError>(
            ValidationError::EmptyField(Field::ShortDescription),
        ) ==> config.short_description.len() == 0,
        config.validation() == Err::<(), ValidationError>(
            ValidationError::EmptyField(Field::LongDescription),
        ) ==> config.long_description.len() == 0,
{
}

} // verus!
