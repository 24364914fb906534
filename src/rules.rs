//! The line classifier: an ordered table of compiled patterns and the
//! decision of whether a line is a timing line, an attribution line or
//! ordinary content.
use vstd::prelude::*;

verus! {

#[verifier::external_type_specification]
#[verifier::external_body]
pub struct ExRegex(regex::Regex);

/// Whether `pattern` is accepted by the regex compiler.
pub uninterp spec fn regex_compiles(pattern: Seq<char>) -> bool;

/// Whether the regex compiled from `pattern` matches somewhere in `haystack`.
pub uninterp spec fn regex_is_match(pattern: Seq<char>, haystack: Seq<char>) -> bool;

/// Relies on `regex::Regex::new`: it succeeds or fails depending on the
/// pattern text alone.
#[verifier::external_body]
fn compile(pattern: &str) -> (r: Option<regex::Regex>)
    ensures
        r is Some <==> regex_compiles(pattern@),
{
    regex::Regex::new(pattern).ok()
}

/// One compiled pattern together with the text it was compiled from.
/// The fields are private: a rule is only ever built by `PatternRule::new`,
/// so `compiled` is always the compilation of `source`.
pub struct PatternRule {
    source: String,
    compiled: regex::Regex,
}

/// Relies on `regex::Regex::is_match`: whether the rule's regex matches
/// anywhere in `line`, which depends on the pattern text and the line alone.
#[verifier::external_body]
fn rule_is_match(rule: &PatternRule, line: &str) -> (r: bool)
    ensures
        r == regex_is_match(rule.source@, line@),
{
    rule.compiled.is_match(line)
}

impl PatternRule {
    pub closed spec fn pattern(&self) -> Seq<char> {
        self.source@
    }

    pub fn new(pattern: &str) -> (r: Option<PatternRule>)
        ensures
            r is Some <==> regex_compiles(pattern@),
            r matches Some(rule) ==> rule.pattern() == pattern@,
    {
        match compile(pattern) {
            Some(re) => Some(PatternRule { source: pattern.to_owned(), compiled: re }),
            None => None,
        }
    }

    pub fn is_match(&self, line: &str) -> (r: bool)
        ensures
            r == regex_is_match(self.pattern(), line@),
    {
        rule_is_match(self, line)
    }
}

/// What the classifier decides about one line.
#[derive(PartialEq, Eq, Structural, Clone, Copy, Debug)]
pub enum Classification {
    Timestamp,
    Trash,
    Content,
}

/// The pattern texts of a rule table: the timing pattern and the ordered
/// attribution patterns.
pub ghost struct RuleSet {
    pub timestamp: Seq<char>,
    pub trash: Seq<Seq<char>>,
}

/// Whether any attribution pattern of the set matches the line.
pub open spec fn matches_trash(rules: RuleSet, line: Seq<char>) -> bool {
    exists|i: int| 0 <= i < rules.trash.len() && regex_is_match(#[trigger] rules.trash[i], line)
}

/// The classification of a line: a timing line is never attribution, and
/// attribution is any single pattern of the table matching.
pub open spec fn classify_spec(rules: RuleSet, line: Seq<char>) -> Classification {
    if regex_is_match(rules.timestamp, line) {
        Classification::Timestamp
    } else if matches_trash(rules, line) {
        Classification::Trash
    } else {
        Classification::Content
    }
}

/// A read-only table of compiled patterns, built once and shared by
/// reference.
pub struct RuleTable {
    timestamp: PatternRule,
    trash: Vec<PatternRule>,
}

impl View for RuleTable {
    type V = RuleSet;

    closed spec fn view(&self) -> RuleSet {
        RuleSet {
            timestamp: self.timestamp.pattern(),
            trash: Seq::new(self.trash.len() as nat, |i: int| self.trash[i].pattern()),
        }
    }
}

impl RuleTable {
    /// Compiles a table from the timing pattern and the attribution patterns,
    /// in order. Fails exactly when one of the patterns does not compile.
    pub fn new(timestamp: &str, trash: &Vec<&str>) -> (r: Option<RuleTable>)
        ensures
            r is Some <==> (regex_compiles(timestamp@) && forall|i: int|
                0 <= i < trash.len() ==> regex_compiles(#[trigger] trash[i]@)),
            r matches Some(t) ==> t@.timestamp == timestamp@ && t@.trash.len() == trash.len()
                && forall|i: int| 0 <= i < trash.len() ==> t@.trash[i] == (#[trigger] trash[i])@,
    {
        let ts = match PatternRule::new(timestamp) {
            Some(rule) => rule,
            None => return None,
        };
        let mut compiled: Vec<PatternRule> = Vec::new();
        let mut i: usize = 0;
        while i < trash.len()
            invariant
                i <= trash.len(),
                compiled.len() == i,
                forall|j: int| 0 <= j < i ==> regex_compiles(#[trigger] trash[j]@),
                forall|j: int| 0 <= j < i ==> (#[trigger] compiled[j]).pattern() == trash[j]@,
            decreases trash.len() - i,
        {
            match PatternRule::new(trash[i]) {
                Some(rule) => compiled.push(rule),
                None => return None,
            }
            i = i + 1;
        }
        let table = RuleTable { timestamp: ts, trash: compiled };
        assert(table@.trash.len() == trash.len());
        Some(table)
    }

    /// The bundled table: the cue-timing pattern and the standard attribution
    /// patterns, in order. It builds exactly when every one of them compiles.
    pub fn standard() -> (r: Option<RuleTable>)
        ensures
            r is Some <==> (regex_compiles(TIMESTAMP_PATTERN@) && forall|i: int|
                0 <= i < 29 ==> regex_compiles(#[trigger] reference_trash_patterns()[i])),
            r matches Some(t) ==> t@.timestamp == TIMESTAMP_PATTERN@ && t@.trash
                == reference_trash_patterns(),
    {
        let patterns = standard_trash_patterns();
        let r = RuleTable::new(TIMESTAMP_PATTERN, &patterns);
        proof {
            assert(reference_trash_patterns().len() == 29);
            if r is Some {
                assert forall|i: int| 0 <= i < 29 implies regex_compiles(
                    #[trigger] reference_trash_patterns()[i],
                ) by {
                    assert(patterns[i]@ == reference_trash_patterns()[i]);
                }
                let t = r->Some_0;
                assert forall|i: int| 0 <= i < 29 implies #[trigger] t@.trash[i]
                    == reference_trash_patterns()[i] by {
                    assert(patterns[i]@ == reference_trash_patterns()[i]);
                    assert(t@.trash[i] == patterns[i]@);
                }
                assert(t@.trash =~= reference_trash_patterns());
            } else {
                if regex_compiles(TIMESTAMP_PATTERN@) && forall|i: int|
                    0 <= i < 29 ==> regex_compiles(#[trigger] reference_trash_patterns()[i]) {
                    assert forall|i: int| 0 <= i < patterns.len() implies regex_compiles(
                        #[trigger] patterns[i]@,
                    ) by {
                        assert(patterns[i]@ == reference_trash_patterns()[i]);
                    }
                }
            }
        }
        r
    }
}

/// Whether the line has the shape of a cue-timing line.
pub fn timestamp_match(rules: &RuleTable, line: &str) -> (r: bool)
    ensures
        r == regex_is_match(rules@.timestamp, line@),
{
    rules.timestamp.is_match(line)
}

/// Whether any attribution pattern matches the line.
pub fn trash_match(rules: &RuleTable, line: &str) -> (r: bool)
    ensures
        r == matches_trash(rules@, line@),
{
    let mut i: usize = 0;
    while i < rules.trash.len()
        invariant
            i <= rules.trash.len(),
            forall|j: int| 0 <= j < i ==> !regex_is_match(#[trigger] rules@.trash[j], line@),
        decreases rules.trash.len() - i,
    {
        if rules.trash[i].is_match(line) {
            assert(regex_is_match(rules@.trash[i as int], line@));
            return true;
        }
        i = i + 1;
    }
    false
}

/// Classifies a line; the timing check comes first and exempts the line
/// from the attribution check.
pub fn classify(rules: &RuleTable, line: &str) -> (r: Classification)
    ensures
        r == classify_spec(rules@, line@),
{
    if timestamp_match(rules, line) {
        Classification::Timestamp
    } else if trash_match(rules, line) {
        Classification::Trash
    } else {
        Classification::Content
    }
}

/// The cue-timing shape: leading index digits, anything, then ` --> ` and a time.
pub const TIMESTAMP_PATTERN: &'static str = r"(?:\d+).*\s+-->\s+[0-5]{2}:.*$";

/// The texts of the bundled attribution patterns, in order, exactly as
/// written.
pub open spec fn reference_trash_patterns() -> Seq<Seq<char>> {
    seq![
        // Spanish uploader-credit phrasing and uploader handles
        r"\b(creado(s)?|subtitu(lo|los|lado|lada|lados)|subtítu(lo|los|lado|lada|lados)|descarg(ado|ar)|(re-?)?sinc(ed|ro(nizado|nizados|nizacion|nización)?)?|modific(ado|ados|ion|iones|ión|iónes)|traduc(e|ido|idos|tora|cion|ciones|ción|ciónes)|correcc(iones|ion|ión|iónes)|correg(ir|ido|idos)|transcri(bido|pcion|pciones|pción|pciónes)|mejor(ado|amientos)|adaptado|ripeo|arreglos|subs|hecha)\W*(por|de|by)?\W*(:|;)\b"@,
        r"\b(Visiontext|Filmtrans|CARLISHIO|HGWizard|LASERFILM|Fhercho06|Cinesotano|jantoniot|Caichac|cemauli|Drakul|Scarlata|laloonda|japezoa|MarcusL|Kikeguate|KIKEGT|Zagon|KingCreole|Mothernatura|MaLTRaiN|FRH|GCas87|maryluzesp|Marenys|ByAlbis02|ana24horas|Fernando355|Zagonsubs|ikerslot|menoyos|Axel7902|vNaru|livinginthepast|patagonikus|Macias Group|EasyTechOficial|mlmlte|LiarsTeam|OnceUponATEAM)\b"@,
        r"\b(juanchojb|shogun87|Rocio190889|darklin01|R@ul|Mabeas|akallabeth|NicoDipaolo|OsirisTSF|Lord Avestruz|LadyJenny|jeslil7|Giobatta SA|MementMori|la_bestia1962|Natuchia|JJ Porto|marchelo64|c\. oper|SHADOW84\Anfegopi|perroubuntero|Kumara|JosephPools|natycuac|ibvil|SwSub|DarKsh|ShalimarFox|R\[H\]ésus AB\+ Team|Mat Productions|S\. C\. Bananas|Bakugan|M-Rok|YYeTTs|robermgs)\b"@,
        r"\b(admitme|argenteam|finalanime|subtitulamos|substeam|subdivx|tusubtitulo|thesubfactory|Open Subtitles|miembro VIP|osdb\.link|TranslatorsInc|Translators, Inc|TranslatorslncSubs\.blogspot\.com\.es|Southparkspanish|SUBTITULOS\.es|SUBITULOS\.es|SouthParkNews\.net|subtitules\.es|ShooCat|YYeTs|TaMaBin|P@bs|gratispeliculas|SubAdictos|SerieCanal|playships\.eu|tusseries\.com|subswiki\.com|Subs-Team|SUBTÍTULOS\.ES|U\-Sub\.net)\b"@,
        // Global ripper and site names
        r"([^Ã]|^)©|==|>>|<<|★|=-|-=| ::| ::|\^\^"@,
        r"\.(tv|tk|xyz|sex|porn|xxx|link|ru)\b|https?\W"@,
        r"\bs(eason)?\W*\d+[^,]\W*e(pisode)?\W*\d+[^,]"@,
        r"\b(tvsubtitle|YTS|YIFY|opensub(titles)?|sub(scene|rip)|podnapisi|addic7ed|ragbear\W{0,2}com|Point\.360)\b"@,
        r"\b(bozxphd|sazu489|psagmeno|anoxmous|9unshofl|BLACKdoor|titlovi|Danishbits|acorn media|hound\W{0,2}org|hunddawgs|iSubDB)\b"@,
        r"\b(jodix|LESAIGNEUR|HighCode|explosiveskull|GoldenBeard|Fingal61|srjanapala|nadielostzilla|IESAIGNEUR|kdwluverz)\b"@,
        r"\b(FilthyRichFutures|celebritysex|shareuniversity|AmericasCardroom|saveanilluminati|MCH2022|ALLIN1BOX|marocas62)\b"@,
        r"\b(ClearwayLaw|SG-66|ShalimarFox|Icefre[@a]k|WGBH|KBS World|SweSUB|koreansubguy|R\[ésus|Barbie_on_Weed)\b"@,
        r"\b(Aldi Arman|void_spell|LnlyHikikomori|wingyee|McEphie|robster38|dw817|zathras69|Thamyris|Dan4Jem|JustCosmin|moviesnipipay|delsxyz)\b"@,
        r"\b(a\. b\. m\. j\.|Altyazı: Conan|SDI Media Group|HaruHaruSubs|@whyuandri|WahyuAndri|TheHeLL|RiKi66|KingJAIN|ADONI@|Jesslataree)\b"@,
        r"\b(OrionDeBmk|TheChaosLegion|COLDFUSION \& BAARO|riri13|KOCOWA|@.?vii?ki|OnDemandKorea|MBC America|globosapien)\b"@,
        r"\b(MSMOVIESBD|fightingfansubs|DLAznMovies|ancientmexicanwisdom|cookcountysheriff|MovieFull|300mbmovie|KoreanDramax)\b"@,
        r"\b(extremesubs|3gpBluray|prijevodi-online|torrentgalaxy|Dramatorrent|torrent\.com|HQCINEMAS|WANNATALKAB[OA]UTIT|italiansubs|1000fr|1TamilMV|HDFREE)\b"@,
        r"\b(chuanloon90|designer_pc|m_fouda97|Mr.Scudester|Shari_Kenzie|U-Sub.net|TCS Subtitling)\b"@,
        r"\b(rate this subtitle|Subtitle(s)? extracted by|Sync(ed)? (&|and) Clean(ed)?|become VIP member|Subs OCR|the best subtitle(s)?|Timing and Subtitle(s)?|rate this subtitle|Free Online Movie(s)?|Subtitle(s)? Transcribed|Re-Sync \&|English Subtitles|Translation(s)? and adaptation:|Captions by Able|Subtitle Rip|Engsub By|Subtitles brought by|Translation \/ Subtitles)\b"@,
        r"\b(Download MyTotal|itfc subtitles|Built Ford Proud|Captioning sponsored|brought to you by Ford|This is a free sub|Custom subtitle by|For more new Episodes visit|Watch Movies and Series|Advertise your product or brand here|Easy Subtitle(s)? Synchronizer|Watch more movies for free|Brought to you by MrsKorea and mily2|Media Access Group at WGBH|Subtitles brought to you by|UNE SÉRIE ORIGINALE NETFLIX|Brought to you by iRiS|Support us and become a VIP member|Advertise your product or brand here|Caption(s|ing)? made possible by|Visit Our Movie Site|Open Subtitle(s)? MKV Player|Translation(s)? and review by|Spell\-Check and Error\-Correction|Subtitles are brought to you|Translation\. Review by Angel\.|Captions by CSI Australia|Timing and Subs by|Subtitles by The World\Ws Finest Team|Watch and Download free|PLEASE DO NOT UPLOAD ANY OF OUR SUBS|Subtitle by CJ Entertainment)\b"@,
        r"\b(Paramartha|Heavens Subbing Squad|DramaFever|Asian Cinema Encoders|Italian Scrubs Addicted|Kevin \& Tyno)\b"@,
        r"\b(Viki\.com|dramafever\.com|GlowGaze\.Com|seriessub\.com|www\.telegram|d\-addicts\.com|NAPiSY\.info|cinetyp\.ch|lauzabo\.blogspot\.com|Laozhabor\.blogspot\.com|MARIO\.MK|captionmax\.com|firebit\.org|popbitch\.com|swsub\.com|sous-titres\.eu|forom\.\W?com|Csi\-teams\. Fr\. St|GreggBraden\.com|inmymelody\.wordpress\.com|serverpartdeals\.com)"@,
        r"\b(Fansub(s)?|Hardsub(s)?|S u b|Sub Rip:|Terjemahan subtitle oleh)"@,
        // English credit phrasing and group handles
        r"\bsub(?:caption(?:s|ed)?|subtitl(?:e|ed|es|ing)|fixed|synch(?:ed|ro(?:nized)?)?|rip(?:ped)?|translat(?:e|ed|ion|ions)|correct(?:ions|ed)|transcri(?:be|bed|pt|ption|ptions)|improve(?:d|ments)|subs|provided|encoded|edit(?:ed|s)?)\W*(?:by|from)?\W*(:|;)\b"@,
        r"^present(s|ing)?:$"@,
        r"\b(KKB|EhLaNa|ydy|swsub|divx|playships|empiremedia|metamorfose|sunmenghao|nessundorma|vothaison)\b"@,
        r"\b(anana|cRosKy|misshu|seriestele|DarKsh|Xenzai|argenteam|tiobetonh|chebinhdan)\b"@,
        r"\b(normita|dawaith|MoSub|snuif|Golgi|Linwelin|Malikay|Ricana|Sadgeezer|SourGrass|mstoll|alire2a)\b"@,
        r"\b(admit1\.app|4kvod\.tv)\b"@,
    ]
}

/// The bundled attribution patterns, grouped by locale and category. Case
/// sensitivity is as written in each pattern.
pub fn standard_trash_patterns() -> (r: Vec<&'static str>)
    ensures
        r.len() == 29,
        forall|i: int| 0 <= i < 29 ==> (#[trigger] r[i])@ == reference_trash_patterns()[i],
{
    vec![
        // Spanish uploader-credit phrasing and uploader handles
        r"\b(creado(s)?|subtitu(lo|los|lado|lada|lados)|subtítu(lo|los|lado|lada|lados)|descarg(ado|ar)|(re-?)?sinc(ed|ro(nizado|nizados|nizacion|nización)?)?|modific(ado|ados|ion|iones|ión|iónes)|traduc(e|ido|idos|tora|cion|ciones|ción|ciónes)|correcc(iones|ion|ión|iónes)|correg(ir|ido|idos)|transcri(bido|pcion|pciones|pción|pciónes)|mejor(ado|amientos)|adaptado|ripeo|arreglos|subs|hecha)\W*(por|de|by)?\W*(:|;)\b",
        r"\b(Visiontext|Filmtrans|CARLISHIO|HGWizard|LASERFILM|Fhercho06|Cinesotano|jantoniot|Caichac|cemauli|Drakul|Scarlata|laloonda|japezoa|MarcusL|Kikeguate|KIKEGT|Zagon|KingCreole|Mothernatura|MaLTRaiN|FRH|GCas87|maryluzesp|Marenys|ByAlbis02|ana24horas|Fernando355|Zagonsubs|ikerslot|menoyos|Axel7902|vNaru|livinginthepast|patagonikus|Macias Group|EasyTechOficial|mlmlte|LiarsTeam|OnceUponATEAM)\b",
        r"\b(juanchojb|shogun87|Rocio190889|darklin01|R@ul|Mabeas|akallabeth|NicoDipaolo|OsirisTSF|Lord Avestruz|LadyJenny|jeslil7|Giobatta SA|MementMori|la_bestia1962|Natuchia|JJ Porto|marchelo64|c\. oper|SHADOW84\Anfegopi|perroubuntero|Kumara|JosephPools|natycuac|ibvil|SwSub|DarKsh|ShalimarFox|R\[H\]ésus AB\+ Team|Mat Productions|S\. C\. Bananas|Bakugan|M-Rok|YYeTTs|robermgs)\b",
        r"\b(admitme|argenteam|finalanime|subtitulamos|substeam|subdivx|tusubtitulo|thesubfactory|Open Subtitles|miembro VIP|osdb\.link|TranslatorsInc|Translators, Inc|TranslatorslncSubs\.blogspot\.com\.es|Southparkspanish|SUBTITULOS\.es|SUBITULOS\.es|SouthParkNews\.net|subtitules\.es|ShooCat|YYeTs|TaMaBin|P@bs|gratispeliculas|SubAdictos|SerieCanal|playships\.eu|tusseries\.com|subswiki\.com|Subs-Team|SUBTÍTULOS\.ES|U\-Sub\.net)\b",
        // Global ripper and site names
        r"([^Ã]|^)©|==|>>|<<|★|=-|-=| ::| ::|\^\^",
        r"\.(tv|tk|xyz|sex|porn|xxx|link|ru)\b|https?\W",
        r"\bs(eason)?\W*\d+[^,]\W*e(pisode)?\W*\d+[^,]",
        r"\b(tvsubtitle|YTS|YIFY|opensub(titles)?|sub(scene|rip)|podnapisi|addic7ed|ragbear\W{0,2}com|Point\.360)\b",
        r"\b(bozxphd|sazu489|psagmeno|anoxmous|9unshofl|BLACKdoor|titlovi|Danishbits|acorn media|hound\W{0,2}org|hunddawgs|iSubDB)\b",
        r"\b(jodix|LESAIGNEUR|HighCode|explosiveskull|GoldenBeard|Fingal61|srjanapala|nadielostzilla|IESAIGNEUR|kdwluverz)\b",
        r"\b(FilthyRichFutures|celebritysex|shareuniversity|AmericasCardroom|saveanilluminati|MCH2022|ALLIN1BOX|marocas62)\b",
        r"\b(ClearwayLaw|SG-66|ShalimarFox|Icefre[@a]k|WGBH|KBS World|SweSUB|koreansubguy|R\[ésus|Barbie_on_Weed)\b",
        r"\b(Aldi Arman|void_spell|LnlyHikikomori|wingyee|McEphie|robster38|dw817|zathras69|Thamyris|Dan4Jem|JustCosmin|moviesnipipay|delsxyz)\b",
        r"\b(a\. b\. m\. j\.|Altyazı: Conan|SDI Media Group|HaruHaruSubs|@whyuandri|WahyuAndri|TheHeLL|RiKi66|KingJAIN|ADONI@|Jesslataree)\b",
        r"\b(OrionDeBmk|TheChaosLegion|COLDFUSION \& BAARO|riri13|KOCOWA|@.?vii?ki|OnDemandKorea|MBC America|globosapien)\b",
        r"\b(MSMOVIESBD|fightingfansubs|DLAznMovies|ancientmexicanwisdom|cookcountysheriff|MovieFull|300mbmovie|KoreanDramax)\b",
        r"\b(extremesubs|3gpBluray|prijevodi-online|torrentgalaxy|Dramatorrent|torrent\.com|HQCINEMAS|WANNATALKAB[OA]UTIT|italiansubs|1000fr|1TamilMV|HDFREE)\b",
        r"\b(chuanloon90|designer_pc|m_fouda97|Mr.Scudester|Shari_Kenzie|U-Sub.net|TCS Subtitling)\b",
        r"\b(rate this subtitle|Subtitle(s)? extracted by|Sync(ed)? (&|and) Clean(ed)?|become VIP member|Subs OCR|the best subtitle(s)?|Timing and Subtitle(s)?|rate this subtitle|Free Online Movie(s)?|Subtitle(s)? Transcribed|Re-Sync \&|English Subtitles|Translation(s)? and adaptation:|Captions by Able|Subtitle Rip|Engsub By|Subtitles brought by|Translation \/ Subtitles)\b",
        r"\b(Download MyTotal|itfc subtitles|Built Ford Proud|Captioning sponsored|brought to you by Ford|This is a free sub|Custom subtitle by|For more new Episodes visit|Watch Movies and Series|Advertise your product or brand here|Easy Subtitle(s)? Synchronizer|Watch more movies for free|Brought to you by MrsKorea and mily2|Media Access Group at WGBH|Subtitles brought to you by|UNE SÉRIE ORIGINALE NETFLIX|Brought to you by iRiS|Support us and become a VIP member|Advertise your product or brand here|Caption(s|ing)? made possible by|Visit Our Movie Site|Open Subtitle(s)? MKV Player|Translation(s)? and review by|Spell\-Check and Error\-Correction|Subtitles are brought to you|Translation\. Review by Angel\.|Captions by CSI Australia|Timing and Subs by|Subtitles by The World\Ws Finest Team|Watch and Download free|PLEASE DO NOT UPLOAD ANY OF OUR SUBS|Subtitle by CJ Entertainment)\b",
        r"\b(Paramartha|Heavens Subbing Squad|DramaFever|Asian Cinema Encoders|Italian Scrubs Addicted|Kevin \& Tyno)\b",
        r"\b(Viki\.com|dramafever\.com|GlowGaze\.Com|seriessub\.com|www\.telegram|d\-addicts\.com|NAPiSY\.info|cinetyp\.ch|lauzabo\.blogspot\.com|Laozhabor\.blogspot\.com|MARIO\.MK|captionmax\.com|firebit\.org|popbitch\.com|swsub\.com|sous-titres\.eu|forom\.\W?com|Csi\-teams\. Fr\. St|GreggBraden\.com|inmymelody\.wordpress\.com|serverpartdeals\.com)",
        r"\b(Fansub(s)?|Hardsub(s)?|S u b|Sub Rip:|Terjemahan subtitle oleh)",
        // English credit phrasing and group handles
        r"\bsub(?:caption(?:s|ed)?|subtitl(?:e|ed|es|ing)|fixed|synch(?:ed|ro(?:nized)?)?|rip(?:ped)?|translat(?:e|ed|ion|ions)|correct(?:ions|ed)|transcri(?:be|bed|pt|ption|ptions)|improve(?:d|ments)|subs|provided|encoded|edit(?:ed|s)?)\W*(?:by|from)?\W*(:|;)\b",
        r"^present(s|ing)?:$",
        r"\b(KKB|EhLaNa|ydy|swsub|divx|playships|empiremedia|metamorfose|sunmenghao|nessundorma|vothaison)\b",
        r"\b(anana|cRosKy|misshu|seriestele|DarKsh|Xenzai|argenteam|tiobetonh|chebinhdan)\b",
        r"\b(normita|dawaith|MoSub|snuif|Golgi|Linwelin|Malikay|Ricana|Sadgeezer|SourGrass|mstoll|alire2a)\b",
        r"\b(admit1\.app|4kvod\.tv)\b",
    ]
}

} // verus!
