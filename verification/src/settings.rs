//! Platform settings: the defaults written at start-up, reading a setting,
//! and changing one.

use vstd::prelude::*;
use crate::text::str_equals;

verus! {

/// How a setting's value is read.
#[derive(Clone, Copy, Debug, PartialEq, Eq, Structural)]
pub enum SettingValueType {
    Integer,
    Float,
    String,
}

/// A setting as it is stored.
#[derive(Clone, Debug)]
pub struct SettingRecord {
    pub key: String,
    pub value: String,
    pub description: String,
    pub protected: bool,
    pub value_type: SettingValueType,
}

/// A default setting: its key, value, type and description.
#[derive(Clone, Debug)]
pub struct SettingDefault {
    pub key: String,
    pub value: String,
    pub value_type: SettingValueType,
    pub description: String,
}

/// Values the environment gives for the settings that it may set.
#[derive(Clone, Debug)]
pub struct SettingOverrides {
    pub instance_destroy_delay: Option<String>,
    pub event_score_decay: Option<String>,
    pub event_score_min_percent: Option<String>,
    pub challenges_dir: Option<String>,
    pub http_prefix: Option<String>,
    pub node_ip: Option<String>,
    pub upload_dir: Option<String>,
}

/// The value from the environment, or the built-in one.
pub open spec fn or_default(v: Option<String>, d: Seq<char>) -> Seq<char> {
    match v {
        Some(s) => s@,
        None => d,
    }
}

/// What the default at position `k` holds.
pub open spec fn default_ok(
    d: SettingDefault,
    key: Seq<char>,
    value: Seq<char>,
    t: SettingValueType,
    description: Seq<char>,
) -> bool {
    d.key@ == key && d.value@ == value && d.value_type == t && d.description@ == description
}

fn value_or(v: &Option<String>, d: &str) -> (r: String)
    ensures
        r@ == or_default(*v, d@),
{
    match v {
        Some(s) => s.clone(),
        None => String::from_str(d),
    }
}

fn entry(key: &str, value: String, t: SettingValueType, description: &str) -> (r: SettingDefault)
    ensures
        default_ok(r, key@, value@, t, description@),
{
    SettingDefault {
        key: String::from_str(key),
        value,
        value_type: t,
        description: String::from_str(description),
    }
}

/// The settings written at start-up when missing, in order; seven of them
/// take their value from the environment when it gives one.
pub fn default_settings(env: &SettingOverrides) -> (r: Vec<SettingDefault>)
    ensures
        r.len() == 10,
        default_ok(
            r@[0],
            "INSTANCE_DESTROY_DELAY"@,
            or_default(env.instance_destroy_delay, "60"@),
            SettingValueType::Integer,
            "实例销毁延迟时间 (分钟)"@,
        ),
        default_ok(
            r@[1],
            "EVENT_SCORE_DECAY"@,
            or_default(env.event_score_decay, "15"@),
            SettingValueType::Integer,
            "比赛题目分数衰减系数"@,
        ),
        default_ok(
            r@[2],
            "EVENT_SCORE_MIN_PERCENT"@,
            or_default(env.event_score_min_percent, "0.45"@),
            SettingValueType::Float,
            "比赛题目最低分数为题目的百分比"@,
        ),
        default_ok(
            r@[3],
            "CHALLENGES_DIR"@,
            or_default(env.challenges_dir, "./challenges"@),
            SettingValueType::String,
            "题目位置"@,
        ),
        default_ok(
            r@[4],
            "HTTP_PREFIX"@,
            or_default(env.http_prefix, "http://"@),
            SettingValueType::String,
            "HTTP前缀"@,
        ),
        default_ok(
            r@[5],
            "NODE_IP"@,
            or_default(env.node_ip, "127.0.0.1"@),
            SettingValueType::String,
            "节点IP"@,
        ),
        default_ok(
            r@[6],
            "UPLOAD_DIR"@,
            or_default(env.upload_dir, "./uploads"@),
            SettingValueType::String,
            "上传目录位置"@,
        ),
        default_ok(r@[7], "FLAG_PREFIX"@, "flag"@, SettingValueType::String, "全局flag前缀"@),
        default_ok(r@[8], "WEAPONS_DIR"@, "./weapons"@, SettingValueType::String, "工具目录"@),
        default_ok(r@[9], "IMAGE_DIR"@, "./images"@, SettingValueType::String, "图片目录"@),
{
    let mut r: Vec<SettingDefault> = Vec::new();
    r.push(
        entry(
            "INSTANCE_DESTROY_DELAY",
            value_or(&env.instance_destroy_delay, "60"),
            SettingValueType::Integer,
            "实例销毁延迟时间 (分钟)",
        ),
    );
    r.push(
        entry(
            "EVENT_SCORE_DECAY",
            value_or(&env.event_score_decay, "15"),
            SettingValueType::Integer,
            "比赛题目分数衰减系数",
        ),
    );
    r.push(
        entry(
            "EVENT_SCORE_MIN_PERCENT",
            value_or(&env.event_score_min_percent, "0.45"),
            SettingValueType::Float,
            "比赛题目最低分数为题目的百分比",
        ),
    );
    r.push(
        entry(
            "CHALLENGES_DIR",
            value_or(&env.challenges_dir, "./challenges"),
            SettingValueType::String,
            "题目位置",
        ),
    );
    r.push(
        entry(
            "HTTP_PREFIX",
            value_or(&env.http_prefix, "http://"),
            SettingValueType::String,
            "HTTP前缀",
        ),
    );
    r.push(
        entry("NODE_IP", value_or(&env.node_ip, "127.0.0.1"), SettingValueType::String, "节点IP"),
    );
    r.push(
        entry(
            "UPLOAD_DIR",
            value_or(&env.upload_dir, "./uploads"),
            SettingValueType::String,
            "上传目录位置",
        ),
    );
    r.push(entry("FLAG_PREFIX", String::from_str("flag"), SettingValueType::String, "全局flag前缀"));
    r.push(entry("WEAPONS_DIR", String::from_str("./weapons"), SettingValueType::String, "工具目录"));
    r.push(entry("IMAGE_DIR", String::from_str("./images"), SettingValueType::String, "图片目录"));
    r
}

/// A default setting as values: key, value, type, description.
pub open spec fn default_view(d: SettingDefault) -> (Seq<char>, Seq<char>, SettingValueType, Seq<char>) {
    (d.key@, d.value@, d.value_type, d.description@)
}

/// The keys of some default settings.
pub open spec fn keys_of(ds: Seq<(Seq<char>, Seq<char>, SettingValueType, Seq<char>)>) -> Seq<
    Seq<char>,
> {
    ds.map_values(|d: (Seq<char>, Seq<char>, SettingValueType, Seq<char>)| d.0)
}

/// The defaults that seeding the settings table inserts, in order: each
/// default is inserted unless a row with its key already stands, whether it
/// was there before (`existing` holds the keys of those rows) or was
/// inserted by an earlier default; a row that stands keeps its value.
pub open spec fn seeded(
    existing: Seq<Seq<char>>,
    ds: Seq<(Seq<char>, Seq<char>, SettingValueType, Seq<char>)>,
) -> Seq<(Seq<char>, Seq<char>, SettingValueType, Seq<char>)>
    decreases ds.len(),
{
    if ds.len() == 0 {
        Seq::empty()
    } else {
        let p = seeded(existing, ds.drop_last());
        if existing.contains(ds.last().0) || keys_of(p).contains(ds.last().0) {
            p
        } else {
            p.push(ds.last())
        }
    }
}

fn contains_text(keys: &Vec<String>, key: &String) -> (r: bool)
    ensures
        r == keys@.map_values(|k: String| k@).contains(key@),
{
    let ghost ks = keys@.map_values(|k: String| k@);
    let mut i: usize = 0;
    while i < keys.len()
        invariant
            i <= keys.len(),
            ks == keys@.map_values(|k: String| k@),
            forall|j: int| 0 <= j < i ==> ks[j] != key@,
        decreases keys.len() - i,
    {
        if str_equals(keys[i].as_str(), key.as_str()) {
            proof {
                assert(ks[i as int] == key@);
            }
            return true;
        }
        i = i + 1;
    }
    false
}

/// The default settings to insert into a settings table whose rows have the
/// keys `existing` (an insert that does nothing on a key that stands).
pub fn seed_settings(existing: &Vec<String>, defaults: &Vec<SettingDefault>) -> (r: Vec<
    SettingDefault,
>)
    ensures
        r@.map_values(|d: SettingDefault| default_view(d)) == seeded(
            existing@.map_values(|k: String| k@),
            defaults@.map_values(|d: SettingDefault| default_view(d)),
        ),
{
    let ghost ex = existing@.map_values(|k: String| k@);
    let ghost ds = defaults@.map_values(|d: SettingDefault| default_view(d));
    let mut out: Vec<SettingDefault> = Vec::new();
    let mut out_keys: Vec<String> = Vec::new();
    let mut i: usize = 0;
    while i < defaults.len()
        invariant
            i <= defaults.len(),
            ex == existing@.map_values(|k: String| k@),
            ds == defaults@.map_values(|d: SettingDefault| default_view(d)),
            out@.map_values(|d: SettingDefault| default_view(d)) == seeded(ex, ds.take(i as int)),
            out_keys@.map_values(|k: String| k@) == keys_of(seeded(ex, ds.take(i as int))),
        decreases defaults.len() - i,
    {
        let d = &defaults[i];
        let ghost prev = seeded(ex, ds.take(i as int));
        proof {
            assert(ds.take(i + 1 as int).drop_last() =~= ds.take(i as int));
            assert(ds.take(i + 1 as int).last() == default_view(*d));
        }
        let stands = contains_text(existing, &d.key) || contains_text(&out_keys, &d.key);
        if !stands {
            let copy = SettingDefault {
                key: d.key.clone(),
                value: d.value.clone(),
                value_type: d.value_type,
                description: d.description.clone(),
            };
            let ghost before_out = out@;
            let ghost before_keys = out_keys@;
            out.push(copy);
            out_keys.push(d.key.clone());
            proof {
                assert(out@.map_values(|d: SettingDefault| default_view(d)) =~= before_out.map_values(
                    |d: SettingDefault| default_view(d),
                ).push(default_view(*d)));
                assert(out_keys@.map_values(|k: String| k@) =~= before_keys.map_values(
                    |k: String| k@,
                ).push(d.key@));
                assert(keys_of(prev.push(default_view(*d))) =~= keys_of(prev).push(d.key@));
            }
        }
        i = i + 1;
    }
    proof {
        assert(ds.take(defaults.len() as int) =~= ds);
    }
    out
}

proof fn lemma_seeded_covers(
    existing: Seq<Seq<char>>,
    ds: Seq<(Seq<char>, Seq<char>, SettingValueType, Seq<char>)>,
)
    ensures
        forall|k: int|
            0 <= k < ds.len() ==> existing.contains(#[trigger] ds[k].0) || keys_of(
                seeded(existing, ds),
            ).contains(ds[k].0),
        forall|j: int|
            0 <= j < seeded(existing, ds).len() ==> !existing.contains(
                #[trigger] seeded(existing, ds)[j].0,
            ),
    decreases ds.len(),
{
    if ds.len() > 0 {
        let q = ds.drop_last();
        lemma_seeded_covers(existing, q);
        let p = seeded(existing, q);
        let r = seeded(existing, ds);
        assert forall|k: int| 0 <= k < ds.len() implies existing.contains(#[trigger] ds[k].0)
            || keys_of(r).contains(ds[k].0) by {
            if k < ds.len() - 1 {
                assert(q[k] == ds[k]);
                if !existing.contains(ds[k].0) {
                    assert(keys_of(p).contains(q[k].0));
                    let j = choose|j: int| 0 <= j < keys_of(p).len() && keys_of(p)[j] == q[k].0;
                    if r != p {
                        assert(r == p.push(ds.last()));
                        assert(keys_of(r)[j] == keys_of(p)[j]);
                    }
                    assert(keys_of(r)[j] == ds[k].0);
                }
            } else {
                if !existing.contains(ds.last().0) && !keys_of(p).contains(ds.last().0) {
                    assert(r == p.push(ds.last()));
                    assert(keys_of(r)[p.len() as int] == ds.last().0);
                } else if !existing.contains(ds.last().0) {
                    let j = choose|j: int| 0 <= j < keys_of(p).len() && keys_of(p)[j] == ds.last().0;
                    assert(r == p);
                    assert(keys_of(r)[j] == ds[k].0);
                }
            }
        }
    }
}

proof fn lemma_seeded_none(
    existing: Seq<Seq<char>>,
    ds: Seq<(Seq<char>, Seq<char>, SettingValueType, Seq<char>)>,
)
    requires
        forall|k: int| 0 <= k < ds.len() ==> existing.contains(#[trigger] ds[k].0),
    ensures
        seeded(existing, ds).len() == 0,
    decreases ds.len(),
{
    if ds.len() > 0 {
        let q = ds.drop_last();
        assert forall|k: int| 0 <= k < q.len() implies existing.contains(#[trigger] q[k].0) by {
            assert(q[k] == ds[k]);
        }
        lemma_seeded_none(existing, q);
        assert(existing.contains(ds[ds.len() - 1].0));
    }
}

/// Seeding the settings table inserts only defaults whose key stands in no
/// row, so rows that stood keep their values; after it every default's key
/// stands; and seeding again inserts nothing.
pub proof fn lemma_seeding_is_idempotent(
    existing: Seq<Seq<char>>,
    ds: Seq<(Seq<char>, Seq<char>, SettingValueType, Seq<char>)>,
)
    ensures
        forall|j: int|
            0 <= j < seeded(existing, ds).len() ==> !existing.contains(
                #[trigger] seeded(existing, ds)[j].0,
            ),
        forall|k: int|
            0 <= k < ds.len() ==> (existing + keys_of(seeded(existing, ds))).contains(
                #[trigger] ds[k].0,
            ),
        seeded(existing + keys_of(seeded(existing, ds)), ds).len() == 0,
{
    lemma_seeded_covers(existing, ds);
    let after = existing + keys_of(seeded(existing, ds));
    assert forall|k: int| 0 <= k < ds.len() implies after.contains(#[trigger] ds[k].0) by {
        if existing.contains(ds[k].0) {
            let j = choose|j: int| 0 <= j < existing.len() && existing[j] == ds[k].0;
            assert(after[j] == ds[k].0);
        } else {
            let ks = keys_of(seeded(existing, ds));
            assert(ks.contains(ds[k].0));
            let j = choose|j: int| 0 <= j < ks.len() && ks[j] == ds[k].0;
            assert(after[existing.len() + j] == ds[k].0);
        }
    }
    lemma_seeded_none(after, ds);
}

/// The value of the setting `key`, given the stored value if there is one;
/// a missing setting is an error naming the key.
pub fn setting_value(key: &str, stored: Option<String>) -> (r: Result<String, String>)
    ensures
        stored.is_some() ==> r == Ok::<String, String>(stored.unwrap()),
        stored.is_none() ==> r.is_err() && r->Err_0@ == "Setting not found:"@ + key@,
{
    match stored {
        Some(v) => Ok(v),
        None => {
            let mut m = String::from_str("Setting not found:");
            m.append(key);
            Err(m)
        },
    }
}

/// The body of a request that creates a setting.
#[derive(Clone, Debug)]
pub struct CreateSettingRequest {
    pub key: String,
    pub value: String,
    pub description: String,
    pub protected: bool,
    pub value_type: SettingValueType,
}

/// The body of a request that changes a setting: given fields replace the
/// stored ones.
#[derive(Clone, Debug)]
pub struct PatchSettingRequest {
    pub key: Option<String>,
    pub value: Option<String>,
    pub description: Option<String>,
    pub protected: Option<bool>,
    pub value_type: Option<SettingValueType>,
}

/// A field after a change: the new value when one is given.
pub open spec fn kept<T>(old: T, new: Option<T>) -> T {
    match new {
        Some(v) => v,
        None => old,
    }
}

/// A setting after a change.
pub open spec fn setting_patched(s: SettingRecord, p: PatchSettingRequest) -> SettingRecord {
    SettingRecord {
        key: kept(s.key, p.key),
        value: kept(s.value, p.value),
        description: kept(s.description, p.description),
        protected: kept(s.protected, p.protected),
        value_type: kept(s.value_type, p.value_type),
    }
}

impl PatchSettingRequest {
    /// The setting with the given fields replaced.
    pub fn apply(self, s: SettingRecord) -> (r: SettingRecord)
        ensures
            r == setting_patched(s, self),
            match self.key {
                Some(v) => r.key == v,
                None => r.key == s.key,
            },
            match self.value {
                Some(v) => r.value == v,
                None => r.value == s.value,
            },
            match self.description {
                Some(v) => r.description == v,
                None => r.description == s.description,
            },
            match self.protected {
                Some(v) => r.protected == v,
                None => r.protected == s.protected,
            },
            match self.value_type {
                Some(v) => r.value_type == v,
                None => r.value_type == s.value_type,
            },
    {
        let mut s = s;
        if let Some(k) = self.key {
            s.key = k;
        }
        if let Some(v) = self.value {
            s.value = v;
        }
        if let Some(d) = self.description {
            s.description = d;
        }
        if let Some(p) = self.protected {
            s.protected = p;
        }
        if let Some(t) = self.value_type {
            s.value_type = t;
        }
        s
    }
}

/// A change that gives no field leaves a setting as it is, and making the
/// same change twice is making it once.
pub proof fn lemma_setting_patch_laws(s: SettingRecord, p: PatchSettingRequest)
    ensures
        setting_patched(
            s,
            PatchSettingRequest {
                key: None,
                value: None,
                description: None,
                protected: None,
                value_type: None,
            },
        ) == s,
        setting_patched(setting_patched(s, p), p) == setting_patched(s, p),
{
}

} // verus!
