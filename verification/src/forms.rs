//! The schema registry: the forms that have a schema, their fields and their typed
//! structures.
use vstd::prelude::*;
use crate::lexer::range_spells;
use crate::text::chars_of;
use crate::timestamp::CalendarDate;

verus! {

/// The forms that have a schema, one for each form and revision.
#[derive(Clone, Copy, Debug, PartialEq, Eq, Structural)]
pub enum Form {
    /// Tax adjustments to income declaration 3, revision 2019P4.
    Ink3s2019P4,
    /// Particulars of associations and foundations to income declaration 3, revision 2019P4.
    Ink3su2019P4,
}

/// The type of the value of a field.
#[derive(Clone, Copy, Debug, PartialEq, Eq, Structural)]
pub enum FieldKind {
    /// An amount: a decimal number that fits 32 bits.
    Amount,
    /// A day, written `YYYYMMDD`.
    Date,
    /// A checkbox, written `X` or `J` for yes and `N` for no; no by default.
    Flag,
    /// Free text of at most `max_len` characters.
    Text { max_len: usize },
}

/// The value of a field of a form, in the type its schema declares.
pub enum TypedValue {
    Amount(u32),
    Date(CalendarDate),
    Flag(bool),
    Text(Seq<char>),
}

/// Whether `value` is a value of kind `kind`.
pub open spec fn fits(kind: FieldKind, value: TypedValue) -> bool {
    match (kind, value) {
        (FieldKind::Amount, TypedValue::Amount(_)) => true,
        (FieldKind::Date, TypedValue::Date(d)) => d.wf(),
        (FieldKind::Flag, TypedValue::Flag(_)) => true,
        (FieldKind::Text { max_len }, TypedValue::Text(s)) => s.len() <= max_len,
        _ => false,
    }
}

/// An optional amount as the value of a field.
pub open spec fn amount_value(v: Option<u32>) -> Option<TypedValue> {
    match v {
        Some(n) => Some(TypedValue::Amount(n)),
        None => None,
    }
}

/// An optional date as the value of a field.
pub open spec fn date_value(v: Option<CalendarDate>) -> Option<TypedValue> {
    match v {
        Some(d) => Some(TypedValue::Date(d)),
        None => None,
    }
}

/// A checkbox as the value of a field: a checkbox always has a value.
pub open spec fn flag_value(v: bool) -> Option<TypedValue> {
    Some(TypedValue::Flag(v))
}

/// An optional text as the value of a field.
pub open spec fn text_value(v: Option<String>) -> Option<TypedValue> {
    match v {
        Some(s) => Some(TypedValue::Text(s@)),
        None => None,
    }
}

/// The fields of INK3S, revision 2019P4, and the type of each.
pub open spec fn ink3s_field_kind(code: u16) -> Option<FieldKind> {
    match code {
        7011 | 7012 => Some(FieldKind::Date),
        8040 | 8044 => Some(FieldKind::Flag),
        8686 | 8786 | 8787 | 8687 | 8788 | 8688 | 8693 | 8696 | 8689 | 8690 | 8789 | 8790 |
            8691 | 8695 | 8795 | 8030 | 8031 | 8033 | 8034 => Some(FieldKind::Amount),
        _ => None,
    }
}

/// The type of field `code` of INK3S.
fn ink3s_kind(code: u16) -> (kind: Option<FieldKind>)
    ensures
        kind == ink3s_field_kind(code),
{
    match code {
        7011 | 7012 => Some(FieldKind::Date),
        8040 | 8044 => Some(FieldKind::Flag),
        8686 | 8786 | 8787 | 8687 | 8788 | 8688 | 8693 | 8696 | 8689 | 8690 | 8789 | 8790 |
            8691 | 8695 | 8795 | 8030 | 8031 | 8033 | 8034 => Some(FieldKind::Amount),
        _ => None,
    }
}

/// The fields of INK3S, revision 2019P4, each under its own name. A field that was not
/// supplied is `None`; a checkbox that was not supplied is `false`.
#[allow(non_camel_case_types)]
#[allow(non_snake_case)]
#[derive(Clone, Debug, PartialEq, Eq)]
pub struct INK3S2019P4 {
    /// 7011: the first day of the fiscal year.
    pub fiscal_year_start_date: Option<CalendarDate>,
    /// 7012: the last day of the fiscal year.
    pub fiscal_year_end_date: Option<CalendarDate>,
    /// 8686: 7.1: adjusted result carried over, a gain.
    pub adjusted_result_from_previous_page_gains: Option<u32>,
    /// 8786: 7.2: adjusted result carried over, a loss.
    pub adjusted_result_from_previous_page_loses: Option<u32>,
    /// 8787: 7.3 a: unused deficit from the year before.
    pub deficit_a_unused_from_previous_year: Option<u32>,
    /// 8687: 7.3 b: reduction of the deficit.
    pub deficit_b_unused_from_previous_year: Option<u32>,
    /// 8788: 7.4: deductible costs that the reported result leaves out.
    pub costs_that_shall_be_withdrawn_but_that_arent_included_in_the_audit: Option<u32>,
    /// 8688: 7.5 a: standard income on accrual funds left at the end of the year.
    pub estimated_income_at_the_end_of_the_fiscal_year_accural_fond: Option<u32>,
    /// 8693: 7.5 b: standard income on fund shares held at the start of the year.
    pub estimated_income_at_the_beginning_of_the_calendar_year_fond_dividens: Option<u32>,
    /// 8696: 7.5 c: amount added when an accrual fund is reversed.
    pub estimated_income_after_reentering_accural_fond: Option<u32>,
    /// 8689: 7.5 d: other income that the reported result leaves out.
    pub income_that_shall_be_declared_but_arent_in_the_declared_result_all_other_income:
        Option<u32>,
    /// 8690: 7.6: tax correction of the booked result of a sale of property, positive.
    pub taxation_correction_of_posted_results_in_connection_with_divestment_of_property_and_bostadsratt:
        Option<u32>,
    /// 8789: 7.6: the same correction, negative.
    pub taxation_correction_of_posted_results_in_connection_with_divestment_of_property_and_bostadsratt_negative:
        Option<u32>,
    /// 8790: 7.7: deduction for forest and substance reduction.
    pub forest_substance_reductions_decution: Option<u32>,
    /// 8691: 7.8: reversal at a sale of property.
    pub reversal_in_connection_to_divestment_of_property: Option<u32>,
    /// 8695: 7.9: surplus.
    pub excess: Option<u32>,
    /// 8795: 7.10: deficit.
    pub deficit: Option<u32>,
    /// 8030: 7.11: depreciation of buildings not reversed at the end of the year.
    pub end_of_taxation_year_non_reversed_deprication_deduction_related_to_buildings: Option<u32>,
    /// 8031: 7.12: depreciation of land improvements not reversed at the end of the year.
    pub end_of_taxation_year_non_reversed_deprication_deduction_related_to_land_development:
        Option<u32>,
    /// 8033: 7.13: amounts reversed under residual value depreciation.
    pub residual_value_depreciation_reversed_amounts_for_deprication_and_writedown_sale_scrapping:
        Option<u32>,
    /// 8034: 7.14: deduction made for capital management costs.
    pub deduction_for_captial_managementcosts_have_been_done_with: Option<u32>,
    /// 8040: a contractor assisted with the annual accounts.
    pub contractor_has_assisted_with_annual_accounts_reports: bool,
    /// 8044: the annual accounts have been audited.
    pub annual_accounts_have_been_audited: bool,
}

impl INK3S2019P4 {
    /// The value that the form holds for field `code`, if it holds one.
    pub open spec fn value_at(&self, code: u16) -> Option<TypedValue> {
        if code == 7011 {
            date_value(self.fiscal_year_start_date)
        } else if code == 7012 {
            date_value(self.fiscal_year_end_date)
        } else if code == 8686 {
            amount_value(self.adjusted_result_from_previous_page_gains)
        } else if code == 8786 {
            amount_value(self.adjusted_result_from_previous_page_loses)
        } else if code == 8787 {
            amount_value(self.deficit_a_unused_from_previous_year)
        } else if code == 8687 {
            amount_value(self.deficit_b_unused_from_previous_year)
        } else if code == 8788 {
            amount_value(self.costs_that_shall_be_withdrawn_but_that_arent_included_in_the_audit)
        } else if code == 8688 {
            amount_value(self.estimated_income_at_the_end_of_the_fiscal_year_accural_fond)
        } else if code == 8693 {
            amount_value(self.estimated_income_at_the_beginning_of_the_calendar_year_fond_dividens)
        } else if code == 8696 {
            amount_value(self.estimated_income_after_reentering_accural_fond)
        } else if code == 8689 {
            amount_value(
                self.income_that_shall_be_declared_but_arent_in_the_declared_result_all_other_income,
            )
        } else if code == 8690 {
            amount_value(
                self.taxation_correction_of_posted_results_in_connection_with_divestment_of_property_and_bostadsratt,
            )
        } else if code == 8789 {
            amount_value(
                self.taxation_correction_of_posted_results_in_connection_with_divestment_of_property_and_bostadsratt_negative,
            )
        } else if code == 8790 {
            amount_value(self.forest_substance_reductions_decution)
        } else if code == 8691 {
            amount_value(self.reversal_in_connection_to_divestment_of_property)
        } else if code == 8695 {
            amount_value(self.excess)
        } else if code == 8795 {
            amount_value(self.deficit)
        } else if code == 8030 {
            amount_value(
                self.end_of_taxation_year_non_reversed_deprication_deduction_related_to_buildings,
            )
        } else if code == 8031 {
            amount_value(
                self.end_of_taxation_year_non_reversed_deprication_deduction_related_to_land_development,
            )
        } else if code == 8033 {
            amount_value(
                self.residual_value_depreciation_reversed_amounts_for_deprication_and_writedown_sale_scrapping,
            )
        } else if code == 8034 {
            amount_value(self.deduction_for_captial_managementcosts_have_been_done_with)
        } else if code == 8040 {
            flag_value(self.contractor_has_assisted_with_annual_accounts_reports)
        } else if code == 8044 {
            flag_value(self.annual_accounts_have_been_audited)
        } else {
            None
        }
    }
}

/// The fields of INK3SU, revision 2019P4, and the type of each.
pub open spec fn ink3su_field_kind(code: u16) -> Option<FieldKind> {
    match code {
        7011 | 7012 => Some(FieldKind::Date),
        8822 | 8828 | 8832 | 8823 | 8827 | 8820 | 8833 | 8821 | 8831 | 8829 | 8830 | 8854 => {
            Some(FieldKind::Flag)
        },
        8620 | 8840 => Some(FieldKind::Text { max_len: 36 }),
        8614 | 8615 | 8640 | 8641 | 8642 | 8643 | 8629 | 8644 | 8713 | 8714 | 8715 | 8716 |
            8717 | 8718 | 8850 | 8857 | 8858 | 8851 | 8852 | 8853 | 8855 | 8856 => {
                Some(FieldKind::Amount)
            },
        _ => None,
    }
}

/// The type of field `code` of INK3SU.
fn ink3su_kind(code: u16) -> (kind: Option<FieldKind>)
    ensures
        kind == ink3su_field_kind(code),
{
    match code {
        7011 | 7012 => Some(FieldKind::Date),
        8822 | 8828 | 8832 | 8823 | 8827 | 8820 | 8833 | 8821 | 8831 | 8829 | 8830 | 8854 => {
            Some(FieldKind::Flag)
        },
        8620 | 8840 => Some(FieldKind::Text { max_len: 36 }),
        8614 | 8615 | 8640 | 8641 | 8642 | 8643 | 8629 | 8644 | 8713 | 8714 | 8715 | 8716 |
            8717 | 8718 | 8850 | 8857 | 8858 | 8851 | 8852 | 8853 | 8855 | 8856 => {
                Some(FieldKind::Amount)
            },
        _ => None,
    }
}

/// The fields of INK3SU, revision 2019P4, each under its own name. A field that was not
/// supplied is `None`; a checkbox that was not supplied is `false`.
#[allow(non_camel_case_types)]
#[allow(non_snake_case)]
#[derive(Clone, Debug, PartialEq, Eq)]
pub struct INK3SU2019P4 {
    /// 7011: the first day of the fiscal year.
    pub fiscal_year_start_date: Option<CalendarDate>,
    /// 7012: the last day of the fiscal year.
    pub fiscal_year_end_date: Option<CalendarDate>,
    /// 8822: purpose by the statutes: athletics.
    pub purpose_athletics: bool,
    /// 8828: purpose by the statutes: culture.
    pub purpose_culture: bool,
    /// 8832: purpose by the statutes: care of the environment.
    pub purpose_environmentalcare: bool,
    /// 8823: purpose by the statutes: care for children and youths.
    pub purpose_care_for_children_and_youths: bool,
    /// 8827: purpose by the statutes: political activities.
    pub purpose_political_activities: bool,
    /// 8820: purpose by the statutes: religious activities.
    pub purpose_religious_activities: bool,
    /// 8833: purpose by the statutes: health care.
    pub purpose_healthcare: bool,
    /// 8821: purpose by the statutes: social aid.
    pub purpose_social_aid: bool,
    /// 8831: purpose by the statutes: the defence of Sweden together with the authorities.
    pub purpose_Swedens_defense_in_collaboration_with_other_government_entities: bool,
    /// 8829: purpose by the statutes: education.
    pub purpose_education: bool,
    /// 8830: purpose by the statutes: scientific research.
    pub purpose_scientific_research: bool,
    /// 8620: purpose by the statutes: another activity of the same standing.
    pub purpose_other_equvivalent: Option<String>,
    /// 8614: share of the property that is let, in per cent.
    pub NGO_how_much_of_the_property_is_rented_percentage: Option<u32>,
    /// 8615: area of the property that is let, in square metres.
    pub NGO_how_much_of_the_property_is_rented_sqm: Option<u32>,
    /// 8640: 4.1 income: membership fees.
    pub NGO_income_membershipfees: Option<u32>,
    /// 8641: 4.2 income: grants and gifts.
    pub NGO_income_gifts_donations: Option<u32>,
    /// 8642: 4.3 income: interest and dividends.
    pub NGO_income_interests_dividends: Option<u32>,
    /// 8643: 4.4 income: gains on sales of property and securities.
    pub NGO_income_profit_on_sale_of_property_securities_etc: Option<u32>,
    /// 8629: 4.5 income: business income.
    pub NGO_income_operational: Option<u32>,
    /// 8644: 4.6 income: property income.
    pub NGO_income_property: Option<u32>,
    /// 8713: 4.7 costs: member activities.
    pub NGO_costs_membership_operations: Option<u32>,
    /// 8714: 4.8 costs: grants and scholarships paid out.
    pub NGO_costs_distributed_donations_grants: Option<u32>,
    /// 8715: 4.9 costs: interest and capital management.
    pub NGO_costs_interestrates_capital_management: Option<u32>,
    /// 8716: 4.10 costs: losses on sales of property and securities.
    pub NGO_costs_loss_when_selling_property: Option<u32>,
    /// 8717: 4.11 costs: business costs.
    pub NGO_costs_operational: Option<u32>,
    /// 8718: 4.12 costs: property costs.
    pub NGO_costs_propertycosts: Option<u32>,
    /// 8840: purpose of the foundation: another activity of the same standing.
    pub purpose_of_the_foundation_other_equvivalent_operation: Option<String>,
    /// 8850: 3.1: grants decided upon, by purpose.
    pub decided_dividend_of_grants_according_to_purposes: Option<u32>,
    /// 8857: 3.2: grants and gifts received.
    pub contributions_gifts: Option<u32>,
    /// 8858: 3.3: costs of collecting grants and gifts.
    pub costs_for_recieving_contributions_collection_costs: Option<u32>,
    /// 8851: 3.4: return on capital.
    pub return_on_capital: Option<u32>,
    /// 8852: 3.5: capital management costs.
    pub asset_management_costs: Option<u32>,
    /// 8853: 3.6: costs of fulfilling the purpose of the foundation.
    pub costs_for_fullfilling_the_purpose_of_the_foundation: Option<u32>,
    /// 8854: 3.7: the grants of 3.1 belong to the return of the year before.
    pub decided_divident_according_to_p_3_that_belongs_to_the_previous_years_capital_return: bool,
    /// 8855: 3.8: operating foundations, income.
    pub information_for_operational_founds_income: Option<u32>,
    /// 8856: 3.9: operating foundations, costs.
    pub information_for_operational_founds_costs: Option<u32>,
}

impl INK3SU2019P4 {
    /// The value that the form holds for field `code`, if it holds one.
    pub open spec fn value_at(&self, code: u16) -> Option<TypedValue> {
        if code == 7011 {
            date_value(self.fiscal_year_start_date)
        } else if code == 7012 {
            date_value(self.fiscal_year_end_date)
        } else if code == 8822 {
            flag_value(self.purpose_athletics)
        } else if code == 8828 {
            flag_value(self.purpose_culture)
        } else if code == 8832 {
            flag_value(self.purpose_environmentalcare)
        } else if code == 8823 {
            flag_value(self.purpose_care_for_children_and_youths)
        } else if code == 8827 {
            flag_value(self.purpose_political_activities)
        } else if code == 8820 {
            flag_value(self.purpose_religious_activities)
        } else if code == 8833 {
            flag_value(self.purpose_healthcare)
        } else if code == 8821 {
            flag_value(self.purpose_social_aid)
        } else if code == 8831 {
            flag_value(self.purpose_Swedens_defense_in_collaboration_with_other_government_entities)
        } else if code == 8829 {
            flag_value(self.purpose_education)
        } else if code == 8830 {
            flag_value(self.purpose_scientific_research)
        } else if code == 8620 {
            text_value(self.purpose_other_equvivalent)
        } else if code == 8614 {
            amount_value(self.NGO_how_much_of_the_property_is_rented_percentage)
        } else if code == 8615 {
            amount_value(self.NGO_how_much_of_the_property_is_rented_sqm)
        } else if code == 8640 {
            amount_value(self.NGO_income_membershipfees)
        } else if code == 8641 {
            amount_value(self.NGO_income_gifts_donations)
        } else if code == 8642 {
            amount_value(self.NGO_income_interests_dividends)
        } else if code == 8643 {
            amount_value(self.NGO_income_profit_on_sale_of_property_securities_etc)
        } else if code == 8629 {
            amount_value(self.NGO_income_operational)
        } else if code == 8644 {
            amount_value(self.NGO_income_property)
        } else if code == 8713 {
            amount_value(self.NGO_costs_membership_operations)
        } else if code == 8714 {
            amount_value(self.NGO_costs_distributed_donations_grants)
        } else if code == 8715 {
            amount_value(self.NGO_costs_interestrates_capital_management)
        } else if code == 8716 {
            amount_value(self.NGO_costs_loss_when_selling_property)
        } else if code == 8717 {
            amount_value(self.NGO_costs_operational)
        } else if code == 8718 {
            amount_value(self.NGO_costs_propertycosts)
        } else if code == 8840 {
            text_value(self.purpose_of_the_foundation_other_equvivalent_operation)
        } else if code == 8850 {
            amount_value(self.decided_dividend_of_grants_according_to_purposes)
        } else if code == 8857 {
            amount_value(self.contributions_gifts)
        } else if code == 8858 {
            amount_value(self.costs_for_recieving_contributions_collection_costs)
        } else if code == 8851 {
            amount_value(self.return_on_capital)
        } else if code == 8852 {
            amount_value(self.asset_management_costs)
        } else if code == 8853 {
            amount_value(self.costs_for_fullfilling_the_purpose_of_the_foundation)
        } else if code == 8854 {
            flag_value(
                self.decided_divident_according_to_p_3_that_belongs_to_the_previous_years_capital_return,
            )
        } else if code == 8855 {
            amount_value(self.information_for_operational_founds_income)
        } else if code == 8856 {
            amount_value(self.information_for_operational_founds_costs)
        } else {
            None
        }
    }
}

/// The type of field `code` in the schema of `form`; `None` where the schema has no such field.
pub open spec fn field_kind(form: Form, code: u16) -> Option<FieldKind> {
    match form {
        Form::Ink3s2019P4 => ink3s_field_kind(code),
        Form::Ink3su2019P4 => ink3su_field_kind(code),
    }
}

/// Whether the schema of `form` asks for field `code` in every filing.
pub open spec fn is_required(form: Form, code: u16) -> bool {
    required_codes(form).contains(code)
}

/// The fields that the schema of `form` asks for, in the order in which they are looked for.
pub open spec fn required_codes(form: Form) -> Seq<u16> {
    seq![7011u16, 7012u16]
}

/// The schema that the registry holds for a document identifier, a filing year and a
/// filing period.
pub open spec fn lookup_form(document_id: Seq<char>, year: u16, period: u8) -> Option<Form> {
    if document_id == "INK3S-2019P4"@ && year == 2019 && period == 4 {
        Some(Form::Ink3s2019P4)
    } else if document_id == "INK3SU-2019P4"@ && year == 2019 && period == 4 {
        Some(Form::Ink3su2019P4)
    } else {
        None
    }
}

/// The type of field `code` in the schema of `form`.
pub fn kind_of_field(form: Form, code: u16) -> (kind: Option<FieldKind>)
    ensures
        kind == field_kind(form, code),
{
    match form {
        Form::Ink3s2019P4 => ink3s_kind(code),
        Form::Ink3su2019P4 => ink3su_kind(code),
    }
}

/// The fields that the schema of `form` asks for.
pub fn required_fields(form: Form) -> (codes: Vec<u16>)
    ensures
        codes@ == required_codes(form),
{
    let mut codes: Vec<u16> = Vec::new();
    codes.push(7011);
    codes.push(7012);
    assert(codes@ =~= seq![7011u16, 7012u16]);
    codes
}

/// Looks a form up in the registry.
pub fn find_form(document_id: &str, year: u16, period: u8) -> (form: Option<Form>)
    ensures
        form == lookup_form(document_id@, year, period),
{
    let id = chars_of(document_id);
    assert(id@.subrange(0, id.len() as int) =~= id@);
    if year != 2019 || period != 4 {
        None
    } else if range_spells(&id, 0, id.len(), "INK3S-2019P4") {
        Some(Form::Ink3s2019P4)
    } else if range_spells(&id, 0, id.len(), "INK3SU-2019P4") {
        Some(Form::Ink3su2019P4)
    } else {
        None
    }
}

/// The typed fields of a validated form: one member for each form that has a schema.
#[derive(Clone, Debug, PartialEq, Eq)]
pub enum ValidDocument {
    INK3S(INK3S2019P4),
    INK3SU(INK3SU2019P4),
}

/// A validated form as a mapping from field codes to typed values.
pub struct ValidDocumentView {
    pub form: Form,
    pub values: Map<u16, TypedValue>,
}

impl ValidDocument {
    /// The form whose schema the document follows.
    pub open spec fn form(&self) -> Form {
        match self {
            ValidDocument::INK3S(_) => Form::Ink3s2019P4,
            ValidDocument::INK3SU(_) => Form::Ink3su2019P4,
        }
    }

    /// The value that the document holds for field `code`, if it holds one.
    pub open spec fn value_at(&self, code: u16) -> Option<TypedValue> {
        match self {
            ValidDocument::INK3S(d) => d.value_at(code),
            ValidDocument::INK3SU(d) => d.value_at(code),
        }
    }

    /// The form whose schema the document follows.
    pub fn kind(&self) -> (form: Form)
        ensures
            form == self.form(),
    {
        match self {
            ValidDocument::INK3S(_) => Form::Ink3s2019P4,
            ValidDocument::INK3SU(_) => Form::Ink3su2019P4,
        }
    }
}

impl View for ValidDocument {
    type V = ValidDocumentView;

    open spec fn view(&self) -> ValidDocumentView {
        ValidDocumentView {
            form: self.form(),
            values: Map::new(
                |code: u16| self.value_at(code) is Some,
                |code: u16| self.value_at(code)->Some_0,
            ),
        }
    }
}

impl ValidDocumentView {
    /// The document follows its schema: it holds a value for no field but those of the
    /// schema, each value has the type that the schema declares, and no field that the
    /// schema asks for is missing.
    pub open spec fn conforms(self) -> bool {
        &&& forall|code: u16| #[trigger]
            self.values.dom().contains(code) ==> {
                &&& field_kind(self.form, code) matches Some(kind)
                &&& fits(kind, self.values[code])
            }
        &&& forall|code: u16|
            is_required(self.form, code) ==> #[trigger] self.values.dom().contains(code)
    }
}

} // verus!
