//! Rows built from the match-scouting form and the pit-scouting form.

use vstd::prelude::*;
use vstd::string::*;

use crate::guards::{contains_password, is_accepted_password, passwords};
use crate::status::HttpStatus;
use crate::text::{
    comma_count, concat_all, joined, lemma_comma_count_add, lemma_concat_all_take, lemma_no_comma_left,
    lemma_separator_commas, remove_commas, text_eq, texts, to_upper, uppercase, without_commas,
};

verus! {

/// One switch of the match form, by the text it shows.
pub struct Toggle {
    pub value: String,
}

/// The match-scouting form, each answer by the text it shows. `defenseplayti`
/// holds the defence playing time written with one decimal.
pub struct FormData {
    pub team: String,
    pub matchnum: String,
    pub absent: String,
    pub name: String,
    pub location: String,
    pub teamleftcommu: String,
    pub teamcollected: String,
    pub autochargesta: String,
    pub toggletesting: Vec<Toggle>,
    pub defenseplayti: String,
    pub defensiverati: String,
    pub teamattemptsc: String,
    pub chargestation: String,
    pub anyrobotprobl: String,
    pub fouls: String,
    pub extranotes: String,
    pub driveteamrati: String,
    pub playstylesumm: String,
    pub password: String,
}

/// The pit-scouting form, each answer by the text it shows.
pub struct PitData {
    pub team: String,
    pub absent: String,
    pub name: String,
    pub location: String,
    pub fullteamname: String,
    pub teamlocation: String,
    pub robotname: String,
    pub drivetraintype: String,
    pub motortype: String,
    pub abilitytomoveco: String,
    pub abilitytomovecu: String,
    pub averageconecycl: String,
    pub averagecubecycl: String,
    pub successfullgrab: String,
    pub robotweightlbs: String,
    pub maxheightcapabi: String,
    pub totalwheelsused: String,
    pub wherearepneumat: String,
    pub whereare3dprint: String,
    pub programmedautoc: String,
    pub apriltagsused: String,
    pub reflectivetapeu: String,
    pub extracamerasuse: String,
    pub automationviase: String,
    pub endgameabilitys: String,
    pub whatisyourfavor: String,
    pub drivestationsum: String,
    pub arethereanyothe: String,
    pub password: String,
}

/// The number of switches of the match form that go into a row.
pub const TOGGLE_COUNT: usize = 27;

/// A field as the row writes it: its shown text, then ", " unless the field's
/// own text equals `last`, the text of the form's closing field.
pub open spec fn field_cell(shown: Seq<char>, raw: Seq<char>, last: Seq<char>) -> Seq<char> {
    shown + if raw == last {
        Seq::<char>::empty()
    } else {
        ", "@
    }
}

/// How a field goes into a row; with `strip`, it is shown without commas.
pub open spec fn field_cell_of(raw: Seq<char>, last: Seq<char>, strip: bool) -> Seq<char> {
    field_cell(
        if strip {
            without_commas(raw)
        } else {
            raw
        },
        raw,
        last,
    )
}

/// The row of a list of field texts.
pub open spec fn fields_row(fields: Seq<Seq<char>>, last: Seq<char>, strip: bool) -> Seq<char> {
    concat_all(fields.map_values(|raw: Seq<char>| field_cell_of(raw, last, strip)))
}

/// The texts of the first switches of the match form.
pub open spec fn toggle_texts(f: FormData) -> Seq<Seq<char>> {
    f.toggletesting@.take(TOGGLE_COUNT as int).map_values(|t: Toggle| t.value@)
}

/// The fields of the match form in the order of the full row.
pub open spec fn scouting_test_fields(f: FormData) -> Seq<Seq<char>> {
    seq![
        f.team@,
        f.matchnum@,
        uppercase(f.absent@),
        f.name@,
        f.location@,
        uppercase(f.teamleftcommu@),
        uppercase(f.teamcollected@),
        f.autochargesta@,
    ] + toggle_texts(f) + seq![
        f.defenseplayti@,
        f.defensiverati@,
        uppercase(f.teamattemptsc@),
        uppercase(f.chargestation@),
        f.anyrobotprobl@,
        f.fouls@,
        f.extranotes@,
        f.driveteamrati@,
        f.playstylesumm@,
    ]
}

/// The fields of the match form in the order of the short row.
pub open spec fn test_fields(f: FormData) -> Seq<Seq<char>> {
    seq![
        f.team@,
        f.matchnum@,
        uppercase(f.absent@),
        without_commas(f.name@),
        f.location@,
        uppercase(f.teamleftcommu@),
        uppercase(f.teamcollected@),
        f.autochargesta@,
        f.defenseplayti@,
        f.defensiverati@,
        uppercase(f.teamattemptsc@),
        uppercase(f.chargestation@),
        f.anyrobotprobl@,
        without_commas(f.fouls@),
        without_commas(f.extranotes@),
        without_commas(f.driveteamrati@),
        without_commas(f.playstylesumm@),
    ]
}

/// The fields of the pit form in the order of its row.
pub open spec fn pit_fields(p: PitData) -> Seq<Seq<char>> {
    seq![
        p.team@,
        p.absent@,
        p.name@,
        p.location@,
        without_commas(p.fullteamname@),
        without_commas(p.teamlocation@),
        without_commas(p.robotname@),
        without_commas(p.drivetraintype@),
        without_commas(p.motortype@),
        without_commas(p.abilitytomoveco@),
        without_commas(p.abilitytomovecu@),
        without_commas(p.averageconecycl@),
        without_commas(p.averagecubecycl@),
        without_commas(p.successfullgrab@),
        without_commas(p.robotweightlbs@),
        without_commas(p.maxheightcapabi@),
        without_commas(p.totalwheelsused@),
        without_commas(p.wherearepneumat@),
        without_commas(p.whereare3dprint@),
        without_commas(p.programmedautoc@),
        without_commas(p.apriltagsused@),
        without_commas(p.reflectivetapeu@),
        without_commas(p.extracamerasuse@),
        without_commas(p.automationviase@),
        without_commas(p.endgameabilitys@),
        without_commas(p.whatisyourfavor@),
        without_commas(p.drivestationsum@),
        without_commas(p.arethereanyothe@),
    ]
}

/// A row whose fields are written without commas holds exactly one comma for each
/// field whose text is not the closing field's: one CSV separator each.
pub proof fn law_commas_of_stripped_row(fields: Seq<Seq<char>>, last: Seq<char>)
    ensures
        comma_count(fields_row(fields, last, true)) == fields.filter(
            |raw: Seq<char>| raw != last,
        ).len(),
    decreases fields.len(),
{
    if fields.len() == 0 {
        reveal(Seq::filter);
    } else {
        let d = fields.drop_last();
        let x = fields.last();
        law_commas_of_stripped_row(d, last);
        assert(fields.map_values(|raw: Seq<char>| field_cell_of(raw, last, true)).drop_last()
            =~= d.map_values(|raw: Seq<char>| field_cell_of(raw, last, true)));
        lemma_comma_count_add(
            concat_all(d.map_values(|raw: Seq<char>| field_cell_of(raw, last, true))),
            field_cell_of(x, last, true),
        );
        lemma_no_comma_left(x);
        lemma_separator_commas();
        lemma_comma_count_add(without_commas(x), ", "@);
        assert(without_commas(x) + Seq::<char>::empty() =~= without_commas(x));
        d.lemma_filter_push(x, |raw: Seq<char>| raw != last);
        assert(fields =~= d.push(x));
    }
}

/// The closing field ends the row, with no separator after it.
pub proof fn law_row_closes_with_last_field(fields: Seq<Seq<char>>, last: Seq<char>, strip: bool)
    requires
        fields.len() > 0,
        fields.last() == last,
    ensures
        fields_row(fields, last, strip) == fields_row(fields.drop_last(), last, strip) + if strip {
            without_commas(last)
        } else {
            last
        },
{
    assert(fields.map_values(|raw: Seq<char>| field_cell_of(raw, last, strip)).drop_last()
        =~= fields.drop_last().map_values(|raw: Seq<char>| field_cell_of(raw, last, strip)));
    assert(field_cell_of(last, last, strip) =~= if strip {
        without_commas(last)
    } else {
        last
    });
}

/// Two rows of fields written without commas are equal when their fields agree
/// once commas are taken out and the separators fall at the same places.
pub proof fn law_stripped_row_ignores_field_commas(
    f1: Seq<Seq<char>>,
    last1: Seq<char>,
    f2: Seq<Seq<char>>,
    last2: Seq<char>,
)
    requires
        f1.len() == f2.len(),
        forall|i: int| 0 <= i < f1.len() ==> without_commas(f1[i]) == without_commas(f2[i]),
        forall|i: int| 0 <= i < f1.len() ==> (f1[i] == last1) == (f2[i] == last2),
    ensures
        fields_row(f1, last1, true) == fields_row(f2, last2, true),
{
    assert(f1.map_values(|raw: Seq<char>| field_cell_of(raw, last1, true)) =~= f2.map_values(
        |raw: Seq<char>| field_cell_of(raw, last2, true),
    ));
}

/// No field of the match form's full row but the closing one has the closing
/// field's text.
pub open spec fn closes_only_at_end(f: FormData) -> bool {
    forall|k: int|
        0 <= k < scouting_test_fields(f).len() - 1 ==> scouting_test_fields(f)[k]
            != f.playstylesumm@
}

/// Commas typed into a field of the match form never reach its full row: two forms
/// whose fields and switches agree once commas are taken out give the same row. The
/// five fields that the row writes in upper case are taken equal.
pub proof fn law_full_row_ignores_field_commas(csv1: FormData, csv2: FormData)
    requires
        toggle_texts(csv1).len() == toggle_texts(csv2).len(),
        forall|k: int|
            0 <= k < toggle_texts(csv1).len() ==> without_commas(toggle_texts(csv1)[k])
                == without_commas(toggle_texts(csv2)[k]),
        csv1.absent@ == csv2.absent@,
        csv1.teamleftcommu@ == csv2.teamleftcommu@,
        csv1.teamcollected@ == csv2.teamcollected@,
        csv1.teamattemptsc@ == csv2.teamattemptsc@,
        csv1.chargestation@ == csv2.chargestation@,
        without_commas(csv1.team@) == without_commas(csv2.team@),
        without_commas(csv1.matchnum@) == without_commas(csv2.matchnum@),
        without_commas(csv1.name@) == without_commas(csv2.name@),
        without_commas(csv1.location@) == without_commas(csv2.location@),
        without_commas(csv1.autochargesta@) == without_commas(csv2.autochargesta@),
        without_commas(csv1.defenseplayti@) == without_commas(csv2.defenseplayti@),
        without_commas(csv1.defensiverati@) == without_commas(csv2.defensiverati@),
        without_commas(csv1.anyrobotprobl@) == without_commas(csv2.anyrobotprobl@),
        without_commas(csv1.fouls@) == without_commas(csv2.fouls@),
        without_commas(csv1.extranotes@) == without_commas(csv2.extranotes@),
        without_commas(csv1.driveteamrati@) == without_commas(csv2.driveteamrati@),
        without_commas(csv1.playstylesumm@) == without_commas(csv2.playstylesumm@),
        closes_only_at_end(csv1),
        closes_only_at_end(csv2),
    ensures
        fields_row(scouting_test_fields(csv1), csv1.playstylesumm@, true) == fields_row(
            scouting_test_fields(csv2),
            csv2.playstylesumm@,
            true,
        ),
{
    let f1 = scouting_test_fields(csv1);
    let f2 = scouting_test_fields(csv2);
    let t = toggle_texts(csv1);
    assert(f1.len() == f2.len());
    assert forall|i: int| 0 <= i < f1.len() implies without_commas(f1[i]) == without_commas(
        f2[i],
    ) by {
        if 8 <= i < 8 + t.len() {
            assert(f1[i] == t[i - 8] && f2[i] == toggle_texts(csv2)[i - 8]);
        }
    }
    assert forall|i: int| 0 <= i < f1.len() implies (f1[i] == csv1.playstylesumm@) == (f2[i]
        == csv2.playstylesumm@) by {
        if i == f1.len() - 1 {
            assert(f1[i] == csv1.playstylesumm@);
            assert(f2[i] == csv2.playstylesumm@);
        }
    }
    law_stripped_row_ignores_field_commas(f1, csv1.playstylesumm@, f2, csv2.playstylesumm@);
}

/// A field's text as a row shows it; with `strip`, without commas.
pub open spec fn shown_text(raw: Seq<char>, strip: bool) -> Seq<char> {
    if strip {
        without_commas(raw)
    } else {
        raw
    }
}

proof fn lemma_open_row_is_joined(g: Seq<Seq<char>>, last: Seq<char>, strip: bool)
    requires
        g.len() > 0,
        forall|k: int| 0 <= k < g.len() ==> g[k] != last,
    ensures
        concat_all(g.map_values(|raw: Seq<char>| field_cell_of(raw, last, strip))) == joined(
            g.map_values(|raw: Seq<char>| shown_text(raw, strip)),
        ) + ", "@,
    decreases g.len(),
{
    let cells = g.map_values(|raw: Seq<char>| field_cell_of(raw, last, strip));
    let shown = g.map_values(|raw: Seq<char>| shown_text(raw, strip));
    let x = g.last();
    assert(cells.last() == shown.last() + ", "@);
    if g.len() == 1 {
        assert(cells.drop_last() =~= Seq::<Seq<char>>::empty());
        assert(concat_all(cells.drop_last()) =~= Seq::<char>::empty());
        assert(concat_all(cells) =~= cells[0]);
    } else {
        let d = g.drop_last();
        lemma_open_row_is_joined(d, last, strip);
        assert(cells.drop_last() =~= d.map_values(|raw: Seq<char>| field_cell_of(raw, last, strip)));
        assert(shown.drop_last() =~= d.map_values(|raw: Seq<char>| shown_text(raw, strip)));
        assert(concat_all(cells) =~= joined(shown) + ", "@);
    }
}

/// When only its closing field has the closing text, a row is its fields' shown
/// texts with ", " between each two of them and nothing after the last.
pub proof fn law_row_is_joined(fields: Seq<Seq<char>>, last: Seq<char>, strip: bool)
    requires
        fields.len() > 0,
        fields.last() == last,
        forall|k: int| 0 <= k < fields.len() - 1 ==> fields[k] != last,
    ensures
        fields_row(fields, last, strip) == joined(
            fields.map_values(|raw: Seq<char>| shown_text(raw, strip)),
        ),
{
    let cells = fields.map_values(|raw: Seq<char>| field_cell_of(raw, last, strip));
    let shown = fields.map_values(|raw: Seq<char>| shown_text(raw, strip));
    let d = fields.drop_last();
    assert(cells.last() =~= shown.last());
    assert(cells.drop_last() =~= d.map_values(|raw: Seq<char>| field_cell_of(raw, last, strip)));
    if fields.len() == 1 {
        assert(concat_all(cells.drop_last()) =~= Seq::<char>::empty());
        assert(concat_all(cells) =~= shown[0]);
    } else {
        lemma_open_row_is_joined(d, last, strip);
        assert(shown.drop_last() =~= d.map_values(|raw: Seq<char>| shown_text(raw, strip)));
        assert(concat_all(cells) =~= joined(shown));
    }
}

/// The short row of a match form is, in this order, the team, the match number, the
/// absence (upper case), the name (without commas), the location, the two
/// community and collection answers (upper case), the auto charge station, the
/// defence time and rating, the attempt and charge-station answers (upper case),
/// the robot problems, then the fouls, the extra notes, the drive-team rating and
/// the play style (each without commas), with ", " between each two of them.
/// This holds when the play style has no comma and no other column has its text.
pub proof fn law_short_row_columns(f: FormData)
    requires
        without_commas(f.playstylesumm@) == f.playstylesumm@,
        f.team@ != f.playstylesumm@,
        f.matchnum@ != f.playstylesumm@,
        uppercase(f.absent@) != f.playstylesumm@,
        without_commas(f.name@) != f.playstylesumm@,
        f.location@ != f.playstylesumm@,
        uppercase(f.teamleftcommu@) != f.playstylesumm@,
        uppercase(f.teamcollected@) != f.playstylesumm@,
        f.autochargesta@ != f.playstylesumm@,
        f.defenseplayti@ != f.playstylesumm@,
        f.defensiverati@ != f.playstylesumm@,
        uppercase(f.teamattemptsc@) != f.playstylesumm@,
        uppercase(f.chargestation@) != f.playstylesumm@,
        f.anyrobotprobl@ != f.playstylesumm@,
        without_commas(f.fouls@) != f.playstylesumm@,
        without_commas(f.extranotes@) != f.playstylesumm@,
        without_commas(f.driveteamrati@) != f.playstylesumm@,
    ensures
        fields_row(test_fields(f), f.playstylesumm@, false) == joined(
            seq![
                f.team@,
                f.matchnum@,
                uppercase(f.absent@),
                without_commas(f.name@),
                f.location@,
                uppercase(f.teamleftcommu@),
                uppercase(f.teamcollected@),
                f.autochargesta@,
                f.defenseplayti@,
                f.defensiverati@,
                uppercase(f.teamattemptsc@),
                uppercase(f.chargestation@),
                f.anyrobotprobl@,
                without_commas(f.fouls@),
                without_commas(f.extranotes@),
                without_commas(f.driveteamrati@),
                without_commas(f.playstylesumm@),
            ],
        ),
{
    let fields = test_fields(f);
    law_row_is_joined(fields, f.playstylesumm@, false);
    assert(fields.map_values(|raw: Seq<char>| shown_text(raw, false)) =~= seq![
        f.team@,
        f.matchnum@,
        uppercase(f.absent@),
        without_commas(f.name@),
        f.location@,
        uppercase(f.teamleftcommu@),
        uppercase(f.teamcollected@),
        f.autochargesta@,
        f.defenseplayti@,
        f.defensiverati@,
        uppercase(f.teamattemptsc@),
        uppercase(f.chargestation@),
        f.anyrobotprobl@,
        without_commas(f.fouls@),
        without_commas(f.extranotes@),
        without_commas(f.driveteamrati@),
        without_commas(f.playstylesumm@),
    ]);
}

/// The full row of a match form is, in this order and each without commas, the
/// team, the match number, the absence (upper case), the name, the location, the
/// community and collection answers (upper case), the auto charge station, the
/// first 27 switches, the defence time and rating, the attempt and charge-station
/// answers (upper case), the robot problems, the fouls, the extra notes, the
/// drive-team rating and the play style, with ", " between each two of them. This
/// holds when no column but the play style has the play style's text.
pub proof fn law_full_row_columns(f: FormData)
    requires
        f.toggletesting@.len() >= 27,
        forall|k: int| 0 <= k < 27 ==> #[trigger] f.toggletesting@[k].value@ != f.playstylesumm@,
        f.team@ != f.playstylesumm@,
        f.matchnum@ != f.playstylesumm@,
        uppercase(f.absent@) != f.playstylesumm@,
        f.name@ != f.playstylesumm@,
        f.location@ != f.playstylesumm@,
        uppercase(f.teamleftcommu@) != f.playstylesumm@,
        uppercase(f.teamcollected@) != f.playstylesumm@,
        f.autochargesta@ != f.playstylesumm@,
        f.defenseplayti@ != f.playstylesumm@,
        f.defensiverati@ != f.playstylesumm@,
        uppercase(f.teamattemptsc@) != f.playstylesumm@,
        uppercase(f.chargestation@) != f.playstylesumm@,
        f.anyrobotprobl@ != f.playstylesumm@,
        f.fouls@ != f.playstylesumm@,
        f.extranotes@ != f.playstylesumm@,
        f.driveteamrati@ != f.playstylesumm@,
    ensures
        fields_row(scouting_test_fields(f), f.playstylesumm@, true) == joined(
            seq![
                without_commas(f.team@),
                without_commas(f.matchnum@),
                without_commas(uppercase(f.absent@)),
                without_commas(f.name@),
                without_commas(f.location@),
                without_commas(uppercase(f.teamleftcommu@)),
                without_commas(uppercase(f.teamcollected@)),
                without_commas(f.autochargesta@),
            ] + f.toggletesting@.take(27).map_values(
                |t: Toggle| without_commas(t.value@),
            ) + seq![
                without_commas(f.defenseplayti@),
                without_commas(f.defensiverati@),
                without_commas(uppercase(f.teamattemptsc@)),
                without_commas(uppercase(f.chargestation@)),
                without_commas(f.anyrobotprobl@),
                without_commas(f.fouls@),
                without_commas(f.extranotes@),
                without_commas(f.driveteamrati@),
                without_commas(f.playstylesumm@),
            ],
        ),
{
    let fields = scouting_test_fields(f);
    assert forall|k: int| 0 <= k < fields.len() - 1 implies fields[k] != f.playstylesumm@ by {
        if 8 <= k < 8 + TOGGLE_COUNT {
            assert(fields[k] == f.toggletesting@[k - 8].value@);
        }
    }
    law_row_is_joined(fields, f.playstylesumm@, true);
    assert(fields.map_values(|raw: Seq<char>| shown_text(raw, true)) =~= seq![
        without_commas(f.team@),
        without_commas(f.matchnum@),
        without_commas(uppercase(f.absent@)),
        without_commas(f.name@),
        without_commas(f.location@),
        without_commas(uppercase(f.teamleftcommu@)),
        without_commas(uppercase(f.teamcollected@)),
        without_commas(f.autochargesta@),
    ] + f.toggletesting@.take(27).map_values(
        |t: Toggle| without_commas(t.value@),
    ) + seq![
        without_commas(f.defenseplayti@),
        without_commas(f.defensiverati@),
        without_commas(uppercase(f.teamattemptsc@)),
        without_commas(uppercase(f.chargestation@)),
        without_commas(f.anyrobotprobl@),
        without_commas(f.fouls@),
        without_commas(f.extranotes@),
        without_commas(f.driveteamrati@),
        without_commas(f.playstylesumm@),
    ]);
}

/// The pit row is, in this order, the team, the absence, the name, the location,
/// then each without commas the full team name, the team's location, the robot's
/// name, the drive train, the motors, the abilities to move cones and cubes, the
/// average cone and cube cycles, the grab success, the weight, the height, the
/// wheels, where pneumatics and 3D prints are, the programmed autos, the april
/// tags, the reflective tape, the extra cameras, the automation, the endgame, the
/// favourite, the drive station and the closing answer, with ", " between each two
/// of them. This holds when the closing answer has no comma and no other column
/// has its text.
pub proof fn law_pit_row_columns(p: PitData)
    requires
        without_commas(p.arethereanyothe@) == p.arethereanyothe@,
        p.team@ != p.arethereanyothe@,
        p.absent@ != p.arethereanyothe@,
        p.name@ != p.arethereanyothe@,
        p.location@ != p.arethereanyothe@,
        without_commas(p.fullteamname@) != p.arethereanyothe@,
        without_commas(p.teamlocation@) != p.arethereanyothe@,
        without_commas(p.robotname@) != p.arethereanyothe@,
        without_commas(p.drivetraintype@) != p.arethereanyothe@,
        without_commas(p.motortype@) != p.arethereanyothe@,
        without_commas(p.abilitytomoveco@) != p.arethereanyothe@,
        without_commas(p.abilitytomovecu@) != p.arethereanyothe@,
        without_commas(p.averageconecycl@) != p.arethereanyothe@,
        without_commas(p.averagecubecycl@) != p.arethereanyothe@,
        without_commas(p.successfullgrab@) != p.arethereanyothe@,
        without_commas(p.robotweightlbs@) != p.arethereanyothe@,
        without_commas(p.maxheightcapabi@) != p.arethereanyothe@,
        without_commas(p.totalwheelsused@) != p.arethereanyothe@,
        without_commas(p.wherearepneumat@) != p.arethereanyothe@,
        without_commas(p.whereare3dprint@) != p.arethereanyothe@,
        without_commas(p.programmedautoc@) != p.arethereanyothe@,
        without_commas(p.apriltagsused@) != p.arethereanyothe@,
        without_commas(p.reflectivetapeu@) != p.arethereanyothe@,
        without_commas(p.extracamerasuse@) != p.arethereanyothe@,
        without_commas(p.automationviase@) != p.arethereanyothe@,
        without_commas(p.endgameabilitys@) != p.arethereanyothe@,
        without_commas(p.whatisyourfavor@) != p.arethereanyothe@,
        without_commas(p.drivestationsum@) != p.arethereanyothe@,
    ensures
        fields_row(pit_fields(p), p.arethereanyothe@, false) == joined(
            seq![
                p.team@,
                p.absent@,
                p.name@,
                p.location@,
                without_commas(p.fullteamname@),
                without_commas(p.teamlocation@),
                without_commas(p.robotname@),
                without_commas(p.drivetraintype@),
                without_commas(p.motortype@),
                without_commas(p.abilitytomoveco@),
                without_commas(p.abilitytomovecu@),
                without_commas(p.averageconecycl@),
                without_commas(p.averagecubecycl@),
                without_commas(p.successfullgrab@),
                without_commas(p.robotweightlbs@),
                without_commas(p.maxheightcapabi@),
                without_commas(p.totalwheelsused@),
                without_commas(p.wherearepneumat@),
                without_commas(p.whereare3dprint@),
                without_commas(p.programmedautoc@),
                without_commas(p.apriltagsused@),
                without_commas(p.reflectivetapeu@),
                without_commas(p.extracamerasuse@),
                without_commas(p.automationviase@),
                without_commas(p.endgameabilitys@),
                without_commas(p.whatisyourfavor@),
                without_commas(p.drivestationsum@),
                without_commas(p.arethereanyothe@),
            ],
        ),
{
    let fields = pit_fields(p);
    law_row_is_joined(fields, p.arethereanyothe@, false);
    assert(fields.map_values(|raw: Seq<char>| shown_text(raw, false)) =~= seq![
        p.team@,
        p.absent@,
        p.name@,
        p.location@,
        without_commas(p.fullteamname@),
        without_commas(p.teamlocation@),
        without_commas(p.robotname@),
        without_commas(p.drivetraintype@),
        without_commas(p.motortype@),
        without_commas(p.abilitytomoveco@),
        without_commas(p.abilitytomovecu@),
        without_commas(p.averageconecycl@),
        without_commas(p.averagecubecycl@),
        without_commas(p.successfullgrab@),
        without_commas(p.robotweightlbs@),
        without_commas(p.maxheightcapabi@),
        without_commas(p.totalwheelsused@),
        without_commas(p.wherearepneumat@),
        without_commas(p.whereare3dprint@),
        without_commas(p.programmedautoc@),
        without_commas(p.apriltagsused@),
        without_commas(p.reflectivetapeu@),
        without_commas(p.extracamerasuse@),
        without_commas(p.automationviase@),
        without_commas(p.endgameabilitys@),
        without_commas(p.whatisyourfavor@),
        without_commas(p.drivestationsum@),
        without_commas(p.arethereanyothe@),
    ]);
}

/// Appends a field's text to a list of fields.
fn push_field(v: &mut Vec<String>, s: String)
    ensures
        texts(final(v)@) == texts(old(v)@).push(s@),
{
    v.push(s);
    assert(texts(v@) =~= texts(old(v)@).push(s@));
}

/// A copy of a text.
fn copy_text(s: &String) -> (r: String)
    ensures
        r@ == s@,
{
    s.clone()
}

/// The row of a list of fields: each field (without commas if `strip`), then
/// ", " unless the field's text equals `last`.
pub fn join_fields(fields: &Vec<String>, last: &str, strip: bool) -> (row: String)
    ensures
        row@ == fields_row(texts(fields@), last@, strip),
{
    let ghost raws = texts(fields@);
    let ghost cells = raws.map_values(|raw: Seq<char>| field_cell_of(raw, last@, strip));
    let mut row = String::new();
    let n = fields.len();
    let mut i: usize = 0;
    while i < n
        invariant
            n == fields@.len(),
            i <= n,
            raws == texts(fields@),
            cells == raws.map_values(|raw: Seq<char>| field_cell_of(raw, last@, strip)),
            row@ == concat_all(cells.take(i as int)),
        decreases n - i,
    {
        let raw = fields[i].as_str();
        if strip {
            let shown = remove_commas(raw);
            row.append(shown.as_str());
        } else {
            row.append(raw);
        }
        if !text_eq(raw, last) {
            row.append(", ");
        }
        proof {
            lemma_concat_all_take(cells, i as int);
        }
        i = i + 1;
    }
    assert(cells.take(n as int) =~= cells);
    row
}

/// The full row of a match form, or Unauthorized when its password is not accepted.
/// Every field is written without commas and followed by ", ", except a field whose
/// text equals that of `playstylesumm`.
pub fn scouting_post_test(csv: &FormData) -> (r: Result<String, HttpStatus>)
    requires
        is_accepted_password(csv.password@) ==> csv.toggletesting@.len() >= TOGGLE_COUNT,
    ensures
        !is_accepted_password(csv.password@) ==> r == Err::<String, HttpStatus>(
            HttpStatus::Unauthorized,
        ),
        is_accepted_password(csv.password@) ==> (r matches Ok(row) && row@ == fields_row(
            scouting_test_fields(*csv),
            csv.playstylesumm@,
            true,
        )),
{
    let passwords = passwords();
    if !contains_password(&passwords, csv.password.as_str()) {
        return Err(HttpStatus::Unauthorized);
    }
    let mut data: Vec<String> = Vec::new();
    push_field(&mut data, copy_text(&csv.team));
    push_field(&mut data, copy_text(&csv.matchnum));
    push_field(&mut data, to_upper(csv.absent.as_str()));
    push_field(&mut data, copy_text(&csv.name));
    push_field(&mut data, copy_text(&csv.location));
    push_field(&mut data, to_upper(csv.teamleftcommu.as_str()));
    push_field(&mut data, to_upper(csv.teamcollected.as_str()));
    push_field(&mut data, copy_text(&csv.autochargesta));
    let ghost head = texts(data@);
    let mut i: usize = 0;
    while i < TOGGLE_COUNT
        invariant
            i <= TOGGLE_COUNT,
            csv.toggletesting@.len() >= TOGGLE_COUNT,
            texts(data@) == head + csv.toggletesting@.take(i as int).map_values(
                |t: Toggle| t.value@,
            ),
        decreases TOGGLE_COUNT - i,
    {
        push_field(&mut data, copy_text(&csv.toggletesting[i].value));
        proof {
            assert(csv.toggletesting@.take(i + 1).map_values(|t: Toggle| t.value@)
                =~= csv.toggletesting@.take(i as int).map_values(|t: Toggle| t.value@).push(
                csv.toggletesting@[i as int].value@,
            ));
        }
        i = i + 1;
    }
    push_field(&mut data, copy_text(&csv.defenseplayti));
    push_field(&mut data, copy_text(&csv.defensiverati));
    push_field(&mut data, to_upper(csv.teamattemptsc.as_str()));
    push_field(&mut data, to_upper(csv.chargestation.as_str()));
    push_field(&mut data, copy_text(&csv.anyrobotprobl));
    push_field(&mut data, copy_text(&csv.fouls));
    push_field(&mut data, copy_text(&csv.extranotes));
    push_field(&mut data, copy_text(&csv.driveteamrati));
    push_field(&mut data, copy_text(&csv.playstylesumm));
    assert(texts(data@) =~= scouting_test_fields(*csv));
    Ok(join_fields(&data, csv.playstylesumm.as_str(), true))
}

/// The short row of a match form, or Unauthorized when its password is not
/// accepted. Every field is followed by ", ", except a field whose text equals
/// that of `playstylesumm` as the form holds it.
pub fn test_post(csv: &FormData) -> (r: Result<String, HttpStatus>)
    ensures
        !is_accepted_password(csv.password@) ==> r == Err::<String, HttpStatus>(
            HttpStatus::Unauthorized,
        ),
        is_accepted_password(csv.password@) ==> (r matches Ok(row) && row@ == fields_row(
            test_fields(*csv),
            csv.playstylesumm@,
            false,
        )),
{
    let passwords = passwords();
    if !contains_password(&passwords, csv.password.as_str()) {
        return Err(HttpStatus::Unauthorized);
    }
    let mut data: Vec<String> = Vec::new();
    push_field(&mut data, copy_text(&csv.team));
    push_field(&mut data, copy_text(&csv.matchnum));
    push_field(&mut data, to_upper(csv.absent.as_str()));
    push_field(&mut data, remove_commas(csv.name.as_str()));
    push_field(&mut data, copy_text(&csv.location));
    push_field(&mut data, to_upper(csv.teamleftcommu.as_str()));
    push_field(&mut data, to_upper(csv.teamcollected.as_str()));
    push_field(&mut data, copy_text(&csv.autochargesta));
    push_field(&mut data, copy_text(&csv.defenseplayti));
    push_field(&mut data, copy_text(&csv.defensiverati));
    push_field(&mut data, to_upper(csv.teamattemptsc.as_str()));
    push_field(&mut data, to_upper(csv.chargestation.as_str()));
    push_field(&mut data, copy_text(&csv.anyrobotprobl));
    push_field(&mut data, remove_commas(csv.fouls.as_str()));
    push_field(&mut data, remove_commas(csv.extranotes.as_str()));
    push_field(&mut data, remove_commas(csv.driveteamrati.as_str()));
    push_field(&mut data, remove_commas(csv.playstylesumm.as_str()));
    assert(texts(data@) =~= test_fields(*csv));
    Ok(join_fields(&data, csv.playstylesumm.as_str(), false))
}

/// The row of a pit form, or Unauthorized when its password is not accepted.
/// Every field is followed by ", ", except a field whose text equals that of
/// `arethereanyothe` as the form holds it.
pub fn pits_post(csv: &PitData) -> (r: Result<String, HttpStatus>)
    ensures
        !is_accepted_password(csv.password@) ==> r == Err::<String, HttpStatus>(
            HttpStatus::Unauthorized,
        ),
        is_accepted_password(csv.password@) ==> (r matches Ok(row) && row@ == fields_row(
            pit_fields(*csv),
            csv.arethereanyothe@,
            false,
        )),
{
    let passwords = passwords();
    if !contains_password(&passwords, csv.password.as_str()) {
        return Err(HttpStatus::Unauthorized);
    }
    let mut data: Vec<String> = Vec::new();
    push_field(&mut data, copy_text(&csv.team));
    push_field(&mut data, copy_text(&csv.absent));
    push_field(&mut data, copy_text(&csv.name));
    push_field(&mut data, copy_text(&csv.location));
    push_field(&mut data, remove_commas(csv.fullteamname.as_str()));
    push_field(&mut data, remove_commas(csv.teamlocation.as_str()));
    push_field(&mut data, remove_commas(csv.robotname.as_str()));
    push_field(&mut data, remove_commas(csv.drivetraintype.as_str()));
    push_field(&mut data, remove_commas(csv.motortype.as_str()));
    push_field(&mut data, remove_commas(csv.abilitytomoveco.as_str()));
    push_field(&mut data, remove_commas(csv.abilitytomovecu.as_str()));
    push_field(&mut data, remove_commas(csv.averageconecycl.as_str()));
    push_field(&mut data, remove_commas(csv.averagecubecycl.as_str()));
    push_field(&mut data, remove_commas(csv.successfullgrab.as_str()));
    push_field(&mut data, remove_commas(csv.robotweightlbs.as_str()));
    push_field(&mut data, remove_commas(csv.maxheightcapabi.as_str()));
    push_field(&mut data, remove_commas(csv.totalwheelsused.as_str()));
    push_field(&mut data, remove_commas(csv.wherearepneumat.as_str()));
    push_field(&mut data, remove_commas(csv.whereare3dprint.as_str()));
    push_field(&mut data, remove_commas(csv.programmedautoc.as_str()));
    push_field(&mut data, remove_commas(csv.apriltagsused.as_str()));
    push_field(&mut data, remove_commas(csv.reflectivetapeu.as_str()));
    push_field(&mut data, remove_commas(csv.extracamerasuse.as_str()));
    push_field(&mut data, remove_commas(csv.automationviase.as_str()));
    push_field(&mut data, remove_commas(csv.endgameabilitys.as_str()));
    push_field(&mut data, remove_commas(csv.whatisyourfavor.as_str()));
    push_field(&mut data, remove_commas(csv.drivestationsum.as_str()));
    push_field(&mut data, remove_commas(csv.arethereanyothe.as_str()));
    assert(texts(data@) =~= pit_fields(*csv));
    Ok(join_fields(&data, csv.arethereanyothe.as_str(), false))
}

} // verus!
