//! Checks on texts, e-mail addresses, numeric data and JSON, with the faults
//! they find and a score for what they were given.
//!
//! Scores are held in thousandths, shares as the two counts they are made
//! of.

use crate::numeric::{is_number, is_numeric, numeric_count};
use crate::pattern::{regex_search, search};
use crate::ratio::{nothing, Ratio, whole};
use crate::store::KeyedStore;
use crate::text::{
    chars_of, decimal, fields, holds_char, lowercased, push_decimal, same_text, split_fields,
    split_words, string_of, string_views, text_view, to_lowercase, trim, trim_bounds, trimmed,
    views, words,
};
use vstd::prelude::*;
use vstd::string::StringSliceAdditionalSpecFns;

verus! {

/// The kind of value that a rule is about.
#[derive(Clone, Copy, Debug, PartialEq, Eq, Structural)]
pub enum ValidationRuleType {
    TEXT,
    NUMBER,
    EMAIL,
    URL,
    PHONE,
    DATE,
    JSON,
    ARRAY,
    OBJECT,
}

/// How grave a fault is.
#[derive(Clone, Copy, Debug, PartialEq, Eq, Structural)]
pub enum ValidationSeverity {
    LOW,
    MEDIUM,
    HIGH,
    CRITICAL,
}

/// What a field has to meet.
#[derive(Debug)]
pub struct ValidationRule {
    pub field_name: String,
    pub rule_type: ValidationRuleType,
    pub required: bool,
    /// In bytes.
    pub min_length: Option<usize>,
    /// In bytes.
    pub max_length: Option<usize>,
    /// A regular expression that has to match somewhere in the value.
    pub pattern: Option<String>,
    /// In thousandths.
    pub min_value: Option<i64>,
    /// In thousandths.
    pub max_value: Option<i64>,
    pub allowed_values: Option<Vec<String>>,
    pub custom_validator: Option<String>,
}

/// What of a rule the checks read, with texts as sequences of characters.
pub struct RuleView {
    pub field_name: Seq<char>,
    pub rule_type: ValidationRuleType,
    pub required: bool,
    pub min_length: Option<usize>,
    pub max_length: Option<usize>,
    pub pattern: Option<Seq<char>>,
    pub allowed_values: Option<Seq<Seq<char>>>,
}

impl View for ValidationRule {
    type V = RuleView;

    open spec fn view(&self) -> RuleView {
        RuleView {
            field_name: self.field_name@,
            rule_type: self.rule_type,
            required: self.required,
            min_length: self.min_length,
            max_length: self.max_length,
            pattern: text_view(self.pattern),
            allowed_values: match self.allowed_values {
                Some(values) => Some(string_views(values@)),
                None => None,
            },
        }
    }
}

/// The views of the rules of a list.
pub open spec fn rule_views(rules: Seq<ValidationRule>) -> Seq<RuleView> {
    Seq::new(rules.len(), |i: int| rules[i]@)
}

/// A fault that makes a value invalid.
#[derive(Debug)]
pub struct ValidationError {
    pub field: String,
    pub message: String,
    pub severity: ValidationSeverity,
    pub code: String,
}

/// A fault with its texts as sequences of characters.
pub struct ErrorView {
    pub field: Seq<char>,
    pub message: Seq<char>,
    pub severity: ValidationSeverity,
    pub code: Seq<char>,
}

impl View for ValidationError {
    type V = ErrorView;

    open spec fn view(&self) -> ErrorView {
        ErrorView { field: self.field@, message: self.message@, severity: self.severity, code: self.code@ }
    }
}

/// Something about a value that is worth a second look.
#[derive(Debug)]
pub struct ValidationWarning {
    pub field: String,
    pub message: String,
    pub suggestion: String,
}

/// A warning with its texts as sequences of characters.
pub struct WarningView {
    pub field: Seq<char>,
    pub message: Seq<char>,
    pub suggestion: Seq<char>,
}

impl View for ValidationWarning {
    type V = WarningView;

    open spec fn view(&self) -> WarningView {
        WarningView { field: self.field@, message: self.message@, suggestion: self.suggestion@ }
    }
}

/// The views of the faults of a list.
pub open spec fn error_views(errors: Seq<ValidationError>) -> Seq<ErrorView> {
    Seq::new(errors.len(), |i: int| errors[i]@)
}

/// The views of the warnings of a list.
pub open spec fn warning_views(warnings: Seq<ValidationWarning>) -> Seq<WarningView> {
    Seq::new(warnings.len(), |i: int| warnings[i]@)
}

/// What a check found.
#[derive(Debug)]
pub struct ValidationResult {
    /// Whether no fault was found.
    pub is_valid: bool,
    pub errors: Vec<ValidationError>,
    pub warnings: Vec<ValidationWarning>,
    /// In thousandths.
    pub quality_score: u32,
}

/// The score for a number of faults and of warnings, in thousandths: a
/// thousand, less seventy for each fault and thirty for each warning, and
/// not below zero.
pub open spec fn quality_score(errors: nat, warnings: nat) -> nat {
    if 70 * errors + 30 * warnings >= 1000 {
        0
    } else {
        (1000 - 70 * errors - 30 * warnings) as nat
    }
}

/// Whether a result holds the given faults and warnings, with the verdict
/// and the score that follow from them.
pub open spec fn result_of(result: ValidationResult, errors: Seq<ErrorView>, warnings: Seq<WarningView>) -> bool {
    &&& error_views(result.errors@) == errors
    &&& warning_views(result.warnings@) == warnings
    &&& result.is_valid == (errors.len() == 0)
    &&& result.quality_score == quality_score(errors.len(), warnings.len())
}

/// The score for the given faults and warnings.
pub fn calculate_quality_score(errors: &Vec<ValidationError>, warnings: &Vec<ValidationWarning>) -> (score: u32)
    ensures
        score == quality_score(errors@.len(), warnings@.len()),
        score <= 1000,
{
    let e = errors.len();
    let w = warnings.len();
    if e >= 15 || w >= 34 {
        0
    } else {
        let lost: usize = 70 * e + 30 * w;
        if lost >= 1000 {
            0
        } else {
            (1000 - lost) as u32
        }
    }
}

fn finish(errors: Vec<ValidationError>, warnings: Vec<ValidationWarning>) -> (result: ValidationResult)
    ensures
        result_of(result, error_views(errors@), warning_views(warnings@)),
{
    let quality_score = calculate_quality_score(&errors, &warnings);
    ValidationResult { is_valid: errors.len() == 0, errors, warnings, quality_score }
}

fn push_error(
    errors: &mut Vec<ValidationError>,
    field: String,
    message: String,
    severity: ValidationSeverity,
    code: &str,
)
    ensures
        error_views(final(errors)@) == error_views(old(errors)@).push(
            ErrorView { field: field@, message: message@, severity, code: code@ },
        ),
{
    let error = ValidationError { field, message, severity, code: code.to_owned() };
    errors.push(error);
    assert(error_views(errors@) =~= error_views(old(errors)@).push(error@));
}

fn push_warning(warnings: &mut Vec<ValidationWarning>, field: String, message: &str, suggestion: &str)
    ensures
        warning_views(final(warnings)@) == warning_views(old(warnings)@).push(
            WarningView { field: field@, message: message@, suggestion: suggestion@ },
        ),
{
    let warning = ValidationWarning { field, message: message.to_owned(), suggestion: suggestion.to_owned() };
    warnings.push(warning);
    assert(warning_views(warnings@) =~= warning_views(old(warnings)@).push(warning@));
}

/// The fault of a required field that is empty.
pub open spec fn required_error(field: Seq<char>) -> ErrorView {
    ErrorView {
        field,
        message: "Field is required"@,
        severity: ValidationSeverity::HIGH,
        code: "REQUIRED_FIELD"@,
    }
}

/// The fault of a value that is shorter than a rule allows.
pub open spec fn min_length_error(field: Seq<char>, least: usize) -> ErrorView {
    ErrorView {
        field,
        message: "Minimum length is "@ + decimal(least as nat) + " characters"@,
        severity: ValidationSeverity::MEDIUM,
        code: "MIN_LENGTH"@,
    }
}

/// The fault of a value that is longer than a rule allows.
pub open spec fn max_length_error(field: Seq<char>, most: usize) -> ErrorView {
    ErrorView {
        field,
        message: "Maximum length is "@ + decimal(most as nat) + " characters"@,
        severity: ValidationSeverity::MEDIUM,
        code: "MAX_LENGTH"@,
    }
}

/// The fault of a value that a rule's pattern does not match.
pub open spec fn pattern_error(field: Seq<char>) -> ErrorView {
    ErrorView {
        field,
        message: "Text does not match required pattern"@,
        severity: ValidationSeverity::MEDIUM,
        code: "PATTERN_MISMATCH"@,
    }
}

/// The fault of a value that is not among those that a rule allows.
pub open spec fn allowed_error(field: Seq<char>) -> ErrorView {
    ErrorView {
        field,
        message: "Value not in allowed list"@,
        severity: ValidationSeverity::MEDIUM,
        code: "INVALID_VALUE"@,
    }
}

/// The faults that one rule finds in a text of the given characters and
/// length in bytes. Only rules for texts find any. A required text that is
/// empty once trimmed has that one fault; otherwise the length, the pattern
/// and the allowed values are checked, in this order. A pattern that is no
/// regular expression is passed over.
pub open spec fn rule_errors(text: Seq<char>, bytes: nat, rule: RuleView) -> Seq<ErrorView> {
    if rule.rule_type != ValidationRuleType::TEXT {
        Seq::empty()
    } else if rule.required && trimmed(text).len() == 0 {
        seq![required_error(rule.field_name)]
    } else {
        let short = if rule.min_length is Some && bytes < rule.min_length.unwrap() {
            seq![min_length_error(rule.field_name, rule.min_length.unwrap())]
        } else {
            Seq::empty()
        };
        let long = if rule.max_length is Some && bytes > rule.max_length.unwrap() {
            seq![max_length_error(rule.field_name, rule.max_length.unwrap())]
        } else {
            Seq::empty()
        };
        let unmatched = if rule.pattern is Some && regex_search(rule.pattern.unwrap(), text) == Some(false) {
            seq![pattern_error(rule.field_name)]
        } else {
            Seq::empty()
        };
        let foreign = if rule.allowed_values is Some && !rule.allowed_values.unwrap().contains(text) {
            seq![allowed_error(rule.field_name)]
        } else {
            Seq::empty()
        };
        short + long + unmatched + foreign
    }
}

/// The faults that a list of rules finds in a text, rule by rule.
pub open spec fn text_errors(text: Seq<char>, bytes: nat, rules: Seq<RuleView>) -> Seq<ErrorView>
    decreases rules.len(),
{
    if rules.len() == 0 {
        Seq::empty()
    } else {
        text_errors(text, bytes, rules.drop_last()) + rule_errors(text, bytes, rules.last())
    }
}

/// Whether one of the texts is `text`.
fn is_among(values: &Vec<String>, text: &str) -> (found: bool)
    ensures
        found == string_views(values@).contains(text@),
{
    let mut i: usize = 0;
    while i < values.len()
        invariant
            i <= values@.len(),
            forall|j: int| 0 <= j < i ==> string_views(values@)[j] != text@,
        decreases values@.len() - i,
    {
        if same_text(values[i].as_str(), text) {
            assert(string_views(values@)[i as int] == text@);
            return true;
        }
        i = i + 1;
    }
    false
}

/// Whether a text is empty once trimmed.
fn is_blank(text: &str) -> (blank: bool)
    ensures
        blank == (trimmed(text@).len() == 0),
{
    let chars = chars_of(text);
    let bounds = trim_bounds(chars.as_slice());
    bounds.0 >= bounds.1
}

/// A set of named lists of rules, and the checks themselves.
pub struct DataValidator {
    rules: KeyedStore<Vec<ValidationRule>>,
}

impl DataValidator {
    /// The lists of rules by name.
    pub closed spec fn schemas(&self) -> Map<Seq<char>, Vec<ValidationRule>> {
        self.rules@
    }

    /// The table of lists is well formed.
    pub closed spec fn well_formed(&self) -> bool {
        self.rules.well_formed()
    }

    /// A validator without lists of rules.
    pub fn new() -> (validator: Self)
        ensures
            validator.well_formed(),
            validator.schemas() == Map::<Seq<char>, Vec<ValidationRule>>::empty(),
    {
        DataValidator { rules: KeyedStore::new() }
    }

    /// Puts a list of rules under a name, in place of the list that had the
    /// name before.
    pub fn add_schema(&mut self, schema_name: &str, rules: Vec<ValidationRule>)
        requires
            old(self).well_formed(),
        ensures
            final(self).well_formed(),
            final(self).schemas() == old(self).schemas().insert(schema_name@, rules),
    {
        let _ = self.rules.insert(schema_name, rules);
    }

    /// Checks a text against a list of rules.
    pub fn validate_text(&self, text: &str, rules: &[ValidationRule]) -> (result: ValidationResult)
        ensures
            result_of(
                result,
                text_errors(text@, text.spec_bytes().len(), rule_views(rules@)),
                Seq::<WarningView>::empty(),
            ),
    {
        let mut errors: Vec<ValidationError> = Vec::new();
        let warnings: Vec<ValidationWarning> = Vec::new();
        let bytes = text.as_bytes().len();
        let blank = is_blank(text);
        let mut i: usize = 0;
        assert(error_views(errors@) =~= Seq::<ErrorView>::empty());
        assert(warning_views(warnings@) =~= Seq::<WarningView>::empty());
        while i < rules.len()
            invariant
                i <= rules@.len(),
                bytes == text.spec_bytes().len(),
                blank == (trimmed(text@).len() == 0),
                error_views(errors@) == text_errors(text@, bytes as nat, rule_views(rules@).take(i as int)),
            decreases rules@.len() - i,
        {
            let rule = &rules[i];
            let ghost before = error_views(errors@);
            proof {
                assert(rule_views(rules@).take(i + 1).drop_last() =~= rule_views(rules@).take(i as int));
                assert(rule_views(rules@).take(i + 1).last() == rule@);
            }
            i = i + 1;
            if rule.rule_type != ValidationRuleType::TEXT {
                assert(before + Seq::<ErrorView>::empty() =~= before);
                continue ;
            }
            if rule.required && blank {
                push_error(
                    &mut errors,
                    rule.field_name.clone(),
                    "Field is required".to_owned(),
                    ValidationSeverity::HIGH,
                    "REQUIRED_FIELD",
                );
                assert(before.push(required_error(rule.field_name@)) =~= before + seq![
                    required_error(rule.field_name@),
                ]);
                continue ;
            }
            let ghost mut found = Seq::<ErrorView>::empty();
            assert(before + found =~= before);
            if let Some(least) = rule.min_length {
                if bytes < least {
                    let mut message = "Minimum length is ".to_owned();
                    push_decimal(&mut message, least as u64);
                    let message = message.concat(" characters");
                    push_error(
                        &mut errors,
                        rule.field_name.clone(),
                        message,
                        ValidationSeverity::MEDIUM,
                        "MIN_LENGTH",
                    );
                    proof {
                        let next = found.push(min_length_error(rule.field_name@, least));
                        assert((before + found).push(min_length_error(rule.field_name@, least)) =~= before
                            + next);
                        found = next;
                    }
                }
            }
            let ghost short = found;
            assert(short =~= Seq::<ErrorView>::empty() + short);
            if let Some(most) = rule.max_length {
                if bytes > most {
                    let mut message = "Maximum length is ".to_owned();
                    push_decimal(&mut message, most as u64);
                    let message = message.concat(" characters");
                    push_error(
                        &mut errors,
                        rule.field_name.clone(),
                        message,
                        ValidationSeverity::MEDIUM,
                        "MAX_LENGTH",
                    );
                    proof {
                        let next = found.push(max_length_error(rule.field_name@, most));
                        assert((before + found).push(max_length_error(rule.field_name@, most)) =~= before
                            + next);
                        found = next;
                    }
                }
            }
            let ghost long = found;
            if let Some(pattern) = &rule.pattern {
                match search(pattern.as_str(), text) {
                    Some(false) => {
                        push_error(
                            &mut errors,
                            rule.field_name.clone(),
                            "Text does not match required pattern".to_owned(),
                            ValidationSeverity::MEDIUM,
                            "PATTERN_MISMATCH",
                        );
                        proof {
                            let next = found.push(pattern_error(rule.field_name@));
                            assert((before + found).push(pattern_error(rule.field_name@)) =~= before + next);
                            found = next;
                        }
                    },
                    _ => {},
                }
            }
            let ghost unmatched = found;
            if let Some(allowed) = &rule.allowed_values {
                if !is_among(allowed, text) {
                    push_error(
                        &mut errors,
                        rule.field_name.clone(),
                        "Value not in allowed list".to_owned(),
                        ValidationSeverity::MEDIUM,
                        "INVALID_VALUE",
                    );
                    proof {
                        let next = found.push(allowed_error(rule.field_name@));
                        assert((before + found).push(allowed_error(rule.field_name@)) =~= before + next);
                        found = next;
                    }
                }
            }
            proof {
                assert(found =~= rule_errors(text@, bytes as nat, rule@));
            }
        }
        assert(rule_views(rules@).take(i as int) =~= rule_views(rules@));
        finish(errors, warnings)
    }
}

/// The regular expression that an e-mail address has to match.
pub open spec fn email_pattern() -> Seq<char> {
    "^[a-zA-Z0-9._%+-]+@[a-zA-Z0-9.-]+\\.[a-zA-Z]{2,}$"@
}

/// The faults of an e-mail address: it is empty once trimmed, or else the
/// pattern for addresses does not match it.
pub open spec fn email_errors(email: Seq<char>) -> Seq<ErrorView> {
    if trimmed(email).len() == 0 {
        seq![
            ErrorView {
                field: "email"@,
                message: "Email is required"@,
                severity: ValidationSeverity::HIGH,
                code: "REQUIRED_FIELD"@,
            },
        ]
    } else if regex_search(email_pattern(), email) != Some(true) {
        seq![
            ErrorView {
                field: "email"@,
                message: "Invalid email format"@,
                severity: ValidationSeverity::HIGH,
                code: "INVALID_EMAIL"@,
            },
        ]
    } else {
        Seq::empty()
    }
}

/// The warnings for an e-mail address: it holds a space, and it is not in
/// lower case.
pub open spec fn email_warnings(email: Seq<char>) -> Seq<WarningView> {
    let spaces = if email.contains(' ') {
        seq![
            WarningView {
                field: "email"@,
                message: "Email contains spaces"@,
                suggestion: "Remove spaces from email address"@,
            },
        ]
    } else {
        Seq::empty()
    };
    let capitals = if lowercased(email) != email {
        seq![
            WarningView {
                field: "email"@,
                message: "Email contains uppercase letters"@,
                suggestion: "Consider using lowercase email address"@,
            },
        ]
    } else {
        Seq::empty()
    };
    spaces + capitals
}

/// The name of the `i`th field of numeric data: `data[i]`.
pub open spec fn field_name(i: nat) -> Seq<char> {
    "data["@ + decimal(i) + "]"@
}

/// The fault of a field that is no number.
pub open spec fn number_error(i: nat, field: Seq<char>) -> ErrorView {
    ErrorView {
        field: field_name(i),
        message: "Invalid number: "@ + field,
        severity: ValidationSeverity::MEDIUM,
        code: "INVALID_NUMBER"@,
    }
}

/// The faults of the fields that are no numbers once trimmed, in the order
/// of the fields.
pub open spec fn field_errors(parts: Seq<Seq<char>>) -> Seq<ErrorView>
    decreases parts.len(),
{
    if parts.len() == 0 {
        Seq::empty()
    } else if is_number(trimmed(parts.last())) {
        field_errors(parts.drop_last())
    } else {
        field_errors(parts.drop_last()).push(number_error((parts.len() - 1) as nat, parts.last()))
    }
}

/// The faults of numeric data: one for each field that is no number, and
/// then one for the data as a whole where no field is a number, or else
/// where more fields are no numbers than are.
pub open spec fn numeric_errors(data: Seq<char>) -> Seq<ErrorView> {
    let parts = fields(data);
    let faults = field_errors(parts);
    let valid = parts.len() - faults.len();
    if valid == 0 {
        faults.push(
            ErrorView {
                field: "data"@,
                message: "No valid numeric data found"@,
                severity: ValidationSeverity::CRITICAL,
                code: "NO_VALID_DATA"@,
            },
        )
    } else if faults.len() > valid {
        faults.push(
            ErrorView {
                field: "data"@,
                message: "Too many invalid values"@,
                severity: ValidationSeverity::HIGH,
                code: "LOW_DATA_QUALITY"@,
            },
        )
    } else {
        faults
    }
}

/// The warning for a field that lies far from the others.
pub open spec fn outlier_warning(i: nat) -> WarningView {
    WarningView {
        field: field_name(i),
        message: "Potential outlier detected"@,
        suggestion: "Review this value for accuracy"@,
    }
}

/// The warnings for the fields at the given positions.
pub open spec fn outlier_warnings(outliers: Seq<usize>) -> Seq<WarningView> {
    Seq::new(outliers.len(), |i: int| outlier_warning(outliers[i] as nat))
}

/// What the scan of a JSON text knows after some of its characters.
pub struct JsonScan {
    /// How many more braces were opened than closed, outside strings.
    pub braces: int,
    /// How many more brackets were opened than closed, outside strings.
    pub brackets: int,
    /// Whether the scan is inside a string.
    pub in_string: bool,
    /// Whether the character before was a backslash that escapes the next.
    pub escaped: bool,
    /// Whether the scan has stopped because more was closed than opened.
    pub stopped: bool,
}

/// The scan after one more character. An escaped character counts for
/// nothing; a backslash escapes the next character, inside and outside
/// strings; a quotation mark opens or closes a string; braces and brackets
/// count outside strings.
pub open spec fn json_step(scan: JsonScan, c: char) -> JsonScan {
    if scan.escaped {
        JsonScan { escaped: false, ..scan }
    } else if c == '\\' {
        JsonScan { escaped: true, ..scan }
    } else if c == '"' {
        JsonScan { in_string: !scan.in_string, ..scan }
    } else {
        let braces = if scan.in_string {
            scan.braces
        } else if c == '{' {
            scan.braces + 1
        } else if c == '}' {
            scan.braces - 1
        } else {
            scan.braces
        };
        let brackets = if scan.in_string {
            scan.brackets
        } else if c == '[' {
            scan.brackets + 1
        } else if c == ']' {
            scan.brackets - 1
        } else {
            scan.brackets
        };
        JsonScan { braces, brackets, stopped: braces < 0 || brackets < 0, ..scan }
    }
}

/// The scan of a text: character by character, up to the first at which it
/// stops.
pub open spec fn json_scan(s: Seq<char>) -> JsonScan
    decreases s.len(),
{
    if s.len() == 0 {
        JsonScan { braces: 0, brackets: 0, in_string: false, escaped: false, stopped: false }
    } else {
        let before = json_scan(s.drop_last());
        if before.stopped {
            before
        } else {
            json_step(before, s.last())
        }
    }
}

/// The fault of a JSON text whose braces or brackets are not balanced.
pub open spec fn unbalanced_error() -> ErrorView {
    ErrorView {
        field: "json"@,
        message: "Unbalanced JSON structure"@,
        severity: ValidationSeverity::HIGH,
        code: "UNBALANCED_JSON"@,
    }
}

/// The faults of a JSON text: it is empty once trimmed; or else its scan
/// stopped, and, counted a second time, its braces or brackets do not come
/// out even where the scan ended.
pub open spec fn json_errors(json: Seq<char>) -> Seq<ErrorView> {
    if trimmed(json).len() == 0 {
        seq![
            ErrorView {
                field: "json"@,
                message: "JSON string is empty"@,
                severity: ValidationSeverity::HIGH,
                code: "EMPTY_JSON"@,
            },
        ]
    } else {
        let scan = json_scan(json);
        let early = if scan.stopped {
            seq![unbalanced_error()]
        } else {
            Seq::empty()
        };
        let uneven = if scan.braces != 0 || scan.brackets != 0 {
            seq![unbalanced_error()]
        } else {
            Seq::empty()
        };
        early + uneven
    }
}

impl DataValidator {
    /// Checks an e-mail address.
    pub fn validate_email(&self, email: &str) -> (result: ValidationResult)
        ensures
            result_of(result, email_errors(email@), email_warnings(email@)),
    {
        let mut errors: Vec<ValidationError> = Vec::new();
        let mut warnings: Vec<ValidationWarning> = Vec::new();
        assert(error_views(errors@) =~= Seq::<ErrorView>::empty());
        assert(warning_views(warnings@) =~= Seq::<WarningView>::empty());
        if is_blank(email) {
            push_error(
                &mut errors,
                "email".to_owned(),
                "Email is required".to_owned(),
                ValidationSeverity::HIGH,
                "REQUIRED_FIELD",
            );
        } else {
            let matched = match search("^[a-zA-Z0-9._%+-]+@[a-zA-Z0-9.-]+\\.[a-zA-Z]{2,}$", email) {
                Some(true) => true,
                _ => false,
            };
            if !matched {
                push_error(
                    &mut errors,
                    "email".to_owned(),
                    "Invalid email format".to_owned(),
                    ValidationSeverity::HIGH,
                    "INVALID_EMAIL",
                );
            }
        }
        assert(error_views(errors@) =~= email_errors(email@));
        let chars = chars_of(email);
        if holds_char(chars.as_slice(), ' ') {
            push_warning(&mut warnings, "email".to_owned(), "Email contains spaces", "Remove spaces from email address");
        }
        let lower = to_lowercase(email);
        if !same_text(lower.as_str(), email) {
            push_warning(
                &mut warnings,
                "email".to_owned(),
                "Email contains uppercase letters",
                "Consider using lowercase email address",
            );
        }
        assert(warning_views(warnings@) =~= email_warnings(email@));
        finish(errors, warnings)
    }

    /// Checks numeric data: fields parted by commas, spaces, tabs and line
    /// feeds. The caller says which fields lie far from the others, by their
    /// positions; each gets a warning.
    pub fn validate_numeric_data(&self, data: &str, outliers: &[usize]) -> (result: ValidationResult)
        ensures
            result_of(result, numeric_errors(data@), outlier_warnings(outliers@)),
    {
        let mut errors: Vec<ValidationError> = Vec::new();
        let mut warnings: Vec<ValidationWarning> = Vec::new();
        assert(error_views(errors@) =~= Seq::<ErrorView>::empty());
        assert(warning_views(warnings@) =~= Seq::<WarningView>::empty());
        let chars = chars_of(data);
        let parts = split_fields(chars.as_slice());
        let mut invalid: usize = 0;
        let mut i: usize = 0;
        while i < parts.len()
            invariant
                i <= parts@.len(),
                invalid <= i,
                invalid == error_views(errors@).len(),
                error_views(errors@) == field_errors(views(parts@).take(i as int)),
            decreases parts@.len() - i,
        {
            proof {
                assert(views(parts@).take(i + 1).drop_last() =~= views(parts@).take(i as int));
                assert(views(parts@).take(i + 1).last() == parts@[i as int]@);
            }
            let inner = trim(parts[i].as_slice());
            if !is_numeric(inner.as_slice()) {
                let mut field = "data[".to_owned();
                push_decimal(&mut field, i as u64);
                let field = field.concat("]");
                let raw = string_of(parts[i].as_slice());
                let message = "Invalid number: ".to_owned().concat(raw.as_str());
                push_error(&mut errors, field, message, ValidationSeverity::MEDIUM, "INVALID_NUMBER");
                invalid = invalid + 1;
            }
            i = i + 1;
        }
        assert(views(parts@).take(i as int) =~= views(parts@));
        let valid: usize = parts.len() - invalid;
        if valid == 0 {
            push_error(
                &mut errors,
                "data".to_owned(),
                "No valid numeric data found".to_owned(),
                ValidationSeverity::CRITICAL,
                "NO_VALID_DATA",
            );
        } else if invalid > valid {
            push_error(
                &mut errors,
                "data".to_owned(),
                "Too many invalid values".to_owned(),
                ValidationSeverity::HIGH,
                "LOW_DATA_QUALITY",
            );
        }
        let mut j: usize = 0;
        while j < outliers.len()
            invariant
                j <= outliers@.len(),
                warning_views(warnings@) == outlier_warnings(outliers@.take(j as int)),
            decreases outliers@.len() - j,
        {
            let mut field = "data[".to_owned();
            push_decimal(&mut field, outliers[j] as u64);
            let field = field.concat("]");
            push_warning(&mut warnings, field, "Potential outlier detected", "Review this value for accuracy");
            assert(warning_views(warnings@) =~= outlier_warnings(outliers@.take(j + 1)));
            j = j + 1;
        }
        assert(outliers@.take(j as int) =~= outliers@);
        finish(errors, warnings)
    }

    /// Checks a JSON text for balance.
    pub fn validate_json(&self, json_str: &str) -> (result: ValidationResult)
        ensures
            result_of(result, json_errors(json_str@), Seq::<WarningView>::empty()),
    {
        let mut errors: Vec<ValidationError> = Vec::new();
        let warnings: Vec<ValidationWarning> = Vec::new();
        assert(error_views(errors@) =~= Seq::<ErrorView>::empty());
        assert(warning_views(warnings@) =~= Seq::<WarningView>::empty());
        if is_blank(json_str) {
            push_error(
                &mut errors,
                "json".to_owned(),
                "JSON string is empty".to_owned(),
                ValidationSeverity::HIGH,
                "EMPTY_JSON",
            );
            assert(error_views(errors@) =~= json_errors(json_str@));
            return finish(errors, warnings);
        }
        let chars = chars_of(json_str);
        let mut braces: i128 = 0;
        let mut brackets: i128 = 0;
        let mut in_string = false;
        let mut escaped = false;
        let mut stopped = false;
        let mut i: usize = 0;
        while i < chars.len() && !stopped
            invariant
                i <= chars@.len(),
                -1 <= braces <= i,
                -1 <= brackets <= i,
                !stopped ==> braces >= 0 && brackets >= 0,
                json_scan(chars@.take(i as int)) == (JsonScan {
                    braces: braces as int,
                    brackets: brackets as int,
                    in_string,
                    escaped,
                    stopped,
                }),
            decreases chars@.len() - i,
        {
            let c = chars[i];
            proof {
                assert(chars@.take(i + 1).drop_last() =~= chars@.take(i as int));
                assert(chars@.take(i + 1).last() == c);
            }
            if escaped {
                escaped = false;
            } else if c == '\\' {
                escaped = true;
            } else if c == '"' {
                in_string = !in_string;
            } else {
                if !in_string {
                    if c == '{' {
                        braces = braces + 1;
                    } else if c == '}' {
                        braces = braces - 1;
                    } else if c == '[' {
                        brackets = brackets + 1;
                    } else if c == ']' {
                        brackets = brackets - 1;
                    }
                }
                if braces < 0 || brackets < 0 {
                    stopped = true;
                }
            }
            i = i + 1;
        }
        proof {
            if stopped {
                lemma_scan_stays_stopped(chars@, i as int);
            } else {
                assert(chars@.take(i as int) =~= chars@);
            }
        }
        if stopped {
            push_error(
                &mut errors,
                "json".to_owned(),
                "Unbalanced JSON structure".to_owned(),
                ValidationSeverity::HIGH,
                "UNBALANCED_JSON",
            );
        }
        if braces != 0 || brackets != 0 {
            push_error(
                &mut errors,
                "json".to_owned(),
                "Unbalanced JSON structure".to_owned(),
                ValidationSeverity::HIGH,
                "UNBALANCED_JSON",
            );
        }
        assert(error_views(errors@) =~= json_errors(json_str@));
        finish(errors, warnings)
    }
}

/// A scan that has stopped stays as it is.
pub proof fn lemma_scan_stays_stopped(s: Seq<char>, at: int)
    requires
        0 <= at <= s.len(),
        json_scan(s.take(at)).stopped,
    ensures
        json_scan(s) == json_scan(s.take(at)),
    decreases s.len() - at,
{
    if at < s.len() {
        assert(s.take(at + 1).drop_last() =~= s.take(at));
        lemma_scan_stays_stopped(s, at + 1);
    } else {
        assert(s.take(at) =~= s);
    }
}

/// How good some data is, in five respects and overall. The overall score is
/// the mean of the five.
#[derive(Clone, Copy, Debug, PartialEq, Eq, Structural)]
pub struct DataQualityMetrics {
    pub completeness: Ratio,
    pub accuracy: Ratio,
    pub consistency: Ratio,
    pub timeliness: Ratio,
    pub validity: Ratio,
    pub overall_score: Ratio,
}

/// The metrics with the given completeness, consistency and validity, of
/// which the first is all or nothing and at most one of the others is a
/// share with the denominator `parts`. Accuracy and timeliness are not
/// measured and count as whole.
pub open spec fn metrics_with(complete: bool, consistent: nat, valid: nat, parts: nat) -> DataQualityMetrics {
    DataQualityMetrics {
        completeness: if complete {
            whole()
        } else {
            nothing()
        },
        accuracy: whole(),
        consistency: Ratio { numerator: consistent as u128, denominator: parts as u128 },
        timeliness: whole(),
        validity: Ratio { numerator: valid as u128, denominator: parts as u128 },
        overall_score: Ratio {
            numerator: ((if complete {
                3 * parts
            } else {
                2 * parts
            }) + consistent + valid) as u128,
            denominator: (5 * parts) as u128,
        },
    }
}

/// The metrics of some data of the kind `kind`.
///
/// A text is complete unless it is empty once trimmed, and as consistent as
/// the share of its words that are different from each other. Numeric data
/// is as valid as the share of its fields that are numbers, and complete
/// where one is. An e-mail address is complete unless it is empty once
/// trimmed, and valid where the pattern for addresses matches it or it is
/// empty. Data of another kind is whole in every respect.
pub open spec fn quality_of(data: Seq<char>, kind: Seq<char>) -> DataQualityMetrics {
    if kind == "text"@ {
        let all = words(data);
        if all.len() > 0 {
            metrics_with(trimmed(data).len() > 0, all.to_set().len(), all.len(), all.len())
        } else {
            metrics_with(trimmed(data).len() > 0, 1, 1, 1)
        }
    } else if kind == "numeric"@ {
        let parts = fields(data);
        metrics_with(numeric_count(parts) > 0, parts.len(), numeric_count(parts), parts.len())
    } else if kind == "email"@ {
        if trimmed(data).len() == 0 {
            metrics_with(false, 1, 1, 1)
        } else if regex_search(email_pattern(), data) != Some(true) {
            metrics_with(true, 1, 0, 1)
        } else {
            metrics_with(true, 1, 1, 1)
        }
    } else {
        metrics_with(true, 1, 1, 1)
    }
}

fn metrics_from(complete: bool, consistent: usize, valid: usize, parts: usize) -> (metrics: DataQualityMetrics)
    requires
        consistent <= parts,
        valid <= parts,
    ensures
        metrics == metrics_with(complete, consistent as nat, valid as nat, parts as nat),
{
    let unit: u128 = if complete {
        3
    } else {
        2
    };
    DataQualityMetrics {
        completeness: if complete {
            Ratio { numerator: 1, denominator: 1 }
        } else {
            Ratio { numerator: 0, denominator: 1 }
        },
        accuracy: Ratio { numerator: 1, denominator: 1 },
        consistency: Ratio { numerator: consistent as u128, denominator: parts as u128 },
        timeliness: Ratio { numerator: 1, denominator: 1 },
        validity: Ratio { numerator: valid as u128, denominator: parts as u128 },
        overall_score: Ratio {
            numerator: unit * (parts as u128) + (consistent as u128) + (valid as u128),
            denominator: 5 * (parts as u128),
        },
    }
}

/// The number of different words among the given ones.
fn count_distinct(all: &Vec<Vec<char>>) -> (count: usize)
    ensures
        count == views(all@).to_set().len(),
        count <= all@.len(),
{
    let mut seen: KeyedStore<bool> = KeyedStore::new();
    let mut i: usize = 0;
    proof {
        assert(views(all@).take(0).to_set() =~= Set::<Seq<char>>::empty());
        assert(seen@.dom() =~= Set::<Seq<char>>::empty());
    }
    while i < all.len()
        invariant
            i <= all@.len(),
            seen.well_formed(),
            seen@.dom() == views(all@).take(i as int).to_set(),
            seen.keys().len() <= i,
        decreases all@.len() - i,
    {
        let word = string_of(all[i].as_slice());
        let ghost before = seen@.dom();
        let _ = seen.insert(word.as_str(), true);
        proof {
            let prefix = views(all@).take(i + 1);
            assert(prefix.drop_last() =~= views(all@).take(i as int));
            assert(prefix.last() == word@);
            assert forall|w: Seq<char>| prefix.to_set().contains(w) <==> before.insert(word@).contains(w) by {
                if prefix.to_set().contains(w) {
                    let j = choose|j: int| 0 <= j < prefix.len() && prefix[j] == w;
                    if j < i {
                        assert(views(all@).take(i as int)[j] == w);
                    }
                }
                if before.contains(w) {
                    let j = choose|j: int| 0 <= j < i && views(all@).take(i as int)[j] == w;
                    assert(prefix[j] == w);
                }
                if w == word@ {
                    assert(prefix[i as int] == w);
                }
            }
            assert(seen@.dom() =~= prefix.to_set());
        }
        i = i + 1;
    }
    proof {
        assert(views(all@).take(i as int) =~= views(all@));
        seen.lemma_slots_are_the_map();
    }
    seen.len()
}

impl DataValidator {
    /// Measures how good some data is.
    pub fn calculate_data_quality_metrics(&self, data: &str, data_type: &str) -> (metrics: DataQualityMetrics)
        ensures
            metrics == quality_of(data@, data_type@),
    {
        if same_text(data_type, "text") {
            let complete = !is_blank(data);
            let chars = chars_of(data);
            let all = split_words(chars.as_slice());
            if all.len() > 0 {
                let distinct = count_distinct(&all);
                metrics_from(complete, distinct, all.len(), all.len())
            } else {
                metrics_from(complete, 1, 1, 1)
            }
        } else if same_text(data_type, "numeric") {
            let chars = chars_of(data);
            let parts = split_fields(chars.as_slice());
            let mut valid: usize = 0;
            let mut i: usize = 0;
            while i < parts.len()
                invariant
                    i <= parts@.len(),
                    valid <= i,
                    valid == numeric_count(views(parts@).take(i as int)),
                decreases parts@.len() - i,
            {
                proof {
                    assert(views(parts@).take(i + 1).drop_last() =~= views(parts@).take(i as int));
                }
                let inner = trim(parts[i].as_slice());
                if is_numeric(inner.as_slice()) {
                    valid = valid + 1;
                }
                i = i + 1;
            }
            assert(views(parts@).take(i as int) =~= views(parts@));
            metrics_from(valid > 0, parts.len(), valid, parts.len())
        } else if same_text(data_type, "email") {
            if is_blank(data) {
                metrics_from(false, 1, 1, 1)
            } else {
                match search("^[a-zA-Z0-9._%+-]+@[a-zA-Z0-9.-]+\\.[a-zA-Z]{2,}$", data) {
                    Some(true) => metrics_from(true, 1, 1, 1),
                    _ => metrics_from(true, 1, 0, 1),
                }
            }
        } else {
            metrics_from(true, 1, 1, 1)
        }
    }
}

/// The rule that `validate_text_input` holds a text to: required, and from
/// one to ten thousand bytes long.
pub open spec fn text_input_rule() -> RuleView {
    RuleView {
        field_name: "text"@,
        rule_type: ValidationRuleType::TEXT,
        required: true,
        min_length: Some(1usize),
        max_length: Some(10000usize),
        pattern: None,
        allowed_values: None,
    }
}

/// Checks a text: it has to be there, and no longer than ten thousand
/// bytes.
pub fn validate_text_input(text: &str) -> (result: ValidationResult)
    ensures
        result_of(
            result,
            text_errors(text@, text.spec_bytes().len(), seq![text_input_rule()]),
            Seq::<WarningView>::empty(),
        ),
{
    let validator = DataValidator::new();
    let mut rules: Vec<ValidationRule> = Vec::new();
    rules.push(
        ValidationRule {
            field_name: "text".to_owned(),
            rule_type: ValidationRuleType::TEXT,
            required: true,
            min_length: Some(1),
            max_length: Some(10000),
            pattern: None,
            min_value: None,
            max_value: None,
            allowed_values: None,
            custom_validator: None,
        },
    );
    assert(rule_views(rules@) =~= seq![text_input_rule()]);
    validator.validate_text(text, rules.as_slice())
}

/// Checks an e-mail address.
pub fn validate_email_input(email: &str) -> (result: ValidationResult)
    ensures
        result_of(result, email_errors(email@), email_warnings(email@)),
{
    let validator = DataValidator::new();
    validator.validate_email(email)
}

/// Checks numeric data, with a warning for each field that the caller names
/// as lying far from the others.
pub fn validate_numeric_input(data: &str, outliers: &[usize]) -> (result: ValidationResult)
    ensures
        result_of(result, numeric_errors(data@), outlier_warnings(outliers@)),
{
    let validator = DataValidator::new();
    validator.validate_numeric_data(data, outliers)
}

/// Checks a JSON text for balance.
pub fn validate_json_input(json: &str) -> (result: ValidationResult)
    ensures
        result_of(result, json_errors(json@), Seq::<WarningView>::empty()),
{
    let validator = DataValidator::new();
    validator.validate_json(json)
}

/// Measures how good some data is.
pub fn get_data_quality_metrics(data: &str, data_type: &str) -> (metrics: DataQualityMetrics)
    ensures
        metrics == quality_of(data@, data_type@),
{
    let validator = DataValidator::new();
    validator.calculate_data_quality_metrics(data, data_type)
}

} // verus!
