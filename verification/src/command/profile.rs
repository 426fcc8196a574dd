use vstd::prelude::*;
use vstd::string::*;
use crate::clock::today_days;
use crate::command::handlers::ProfileCommand;
use crate::command::register::texts;
use crate::command::session::same_text;
use crate::pattern::{date_days, parse_date, regex_match, regex_verdict};

verus! {

/// The changes that `profile update` asks for. The birthday is counted in
/// days from the first of January of the year 1.
#[derive(Debug)]
pub struct ProfileUpdate {
    pub email: Option<String>,
    pub gender: Option<String>,
    pub birthday: Option<i32>,
}

/// What `profile` was asked to do.
#[derive(Debug)]
pub enum ProfileAction {
    Show,
    Update(ProfileUpdate),
}

/// Mathematical value of a [`ProfileUpdate`].
pub struct ProfileUpdateView {
    pub email: Option<Seq<char>>,
    pub gender: Option<Seq<char>>,
    pub birthday: Option<i32>,
}

/// Mathematical value of a [`ProfileAction`].
pub enum ProfileActionView {
    Show,
    Update(ProfileUpdateView),
}

/// The characters of an optional text.
pub open spec fn text_of(text: Option<String>) -> Option<Seq<char>> {
    match text {
        Some(t) => Some(t@),
        None => None,
    }
}

impl View for ProfileUpdate {
    type V = ProfileUpdateView;

    open spec fn view(&self) -> ProfileUpdateView {
        ProfileUpdateView {
            email: text_of(self.email),
            gender: text_of(self.gender),
            birthday: self.birthday,
        }
    }
}

impl View for ProfileAction {
    type V = ProfileActionView;

    open spec fn view(&self) -> ProfileActionView {
        match self {
            ProfileAction::Show => ProfileActionView::Show,
            ProfileAction::Update(u) => ProfileActionView::Update(u@),
        }
    }
}

/// The pattern that an e-mail address must match.
pub open spec fn email_pattern() -> Seq<char> {
    "^[a-zA-Z0-9._%+-]+@[a-zA-Z0-9.-]+\\.[a-zA-Z]{2,}$"@
}

/// The format that a birthday is written in.
pub open spec fn birthday_format() -> Seq<char> {
    "%Y-%m-%d"@
}

/// Whether the text has the shape of an e-mail address.
pub open spec fn email_ok(text: Seq<char>) -> bool {
    regex_verdict(email_pattern(), text) == Some(true)
}

/// Whether the text names a gender that the profile knows.
pub open spec fn gender_ok(text: Seq<char>) -> bool {
    text == "male"@ || text == "female"@ || text == "other"@
}

/// The changes from argument `i` on, or the complaint about the first
/// argument that is no option, lacks its value or has a value that is not
/// accepted. A birthday must be a date that is not after the day `today`.
pub open spec fn profile_options(
    args: Seq<Seq<char>>,
    i: int,
    seen: ProfileUpdateView,
    today: i32,
) -> Result<ProfileUpdateView, Seq<char>>
    decreases args.len() - i,
{
    if i < 0 || i >= args.len() {
        Ok(seen)
    } else if args[i] == "--email"@ {
        if i + 1 >= args.len() {
            Err("请提供邮箱地址"@)
        } else if !email_ok(args[i + 1]) {
            Err("邮箱格式不正确"@)
        } else {
            profile_options(
                args,
                i + 2,
                ProfileUpdateView { email: Some(args[i + 1]), ..seen },
                today,
            )
        }
    } else if args[i] == "--gender"@ {
        if i + 1 >= args.len() {
            Err("请提供性别"@)
        } else if !gender_ok(args[i + 1]) {
            Err("性别必须是 male、female 或 other"@)
        } else {
            profile_options(
                args,
                i + 2,
                ProfileUpdateView { gender: Some(args[i + 1]), ..seen },
                today,
            )
        }
    } else if args[i] == "--birthday"@ {
        if i + 1 >= args.len() {
            Err("请提供生日"@)
        } else {
            match date_days(args[i + 1], birthday_format()) {
                None => Err("生日格式不正确，请使用 YYYY-MM-DD 格式"@),
                Some(day) => if day > today {
                    Err("生日不能是未来日期"@)
                } else {
                    profile_options(
                        args,
                        i + 2,
                        ProfileUpdateView { birthday: Some(day), ..seen },
                        today,
                    )
                },
            }
        }
    } else {
        Err("未知参数: "@ + args[i])
    }
}

/// The usage line of `profile`.
pub open spec fn profile_usage() -> Seq<char> {
    "用法: profile show | profile update [--email <email>] [--gender <gender>] [--birthday <YYYY-MM-DD>]"@
}

/// What a `profile` command line asks for on the day `today`, or the
/// complaint about it.
pub open spec fn profile_action(args: Seq<Seq<char>>, today: i32) -> Result<
    ProfileActionView,
    Seq<char>,
> {
    if args.len() == 1 || (args.len() == 2 && args[1] == "show"@) {
        Ok(ProfileActionView::Show)
    } else if args.len() >= 2 && args[1] == "update"@ {
        let none = ProfileUpdateView { email: None, gender: None, birthday: None };
        match profile_options(args, 2, none, today) {
            Ok(update) => Ok(ProfileActionView::Update(update)),
            Err(complaint) => Err(complaint),
        }
    } else {
        Err(profile_usage())
    }
}

/// Whether an executable answer has the value `expected`.
pub open spec fn profile_answer_is(
    r: Result<ProfileAction, String>,
    expected: Result<ProfileActionView, Seq<char>>,
) -> bool {
    match r {
        Ok(action) => expected == Ok::<ProfileActionView, Seq<char>>(action@),
        Err(complaint) => expected == Err::<ProfileActionView, Seq<char>>(complaint@),
    }
}

impl ProfileCommand {
    /// Reads a `profile` command line, whose first word is the command, on
    /// the day that the clock shows.
    pub fn parse(&self, args: &Vec<String>) -> (r: Result<ProfileAction, String>)
        ensures
            exists|today: i32| profile_answer_is(r, #[trigger] profile_action(texts(args@), today)),
    {
        let today = today_days();
        let r = self.parse_on(args, today);
        assert(profile_answer_is(r, profile_action(texts(args@), today)));
        r
    }

    /// Reads a `profile` command line, whose first word is the command, on
    /// the day `today`.
    pub fn parse_on(&self, args: &Vec<String>, today: i32) -> (r: Result<ProfileAction, String>)
        ensures
            profile_answer_is(r, profile_action(texts(args@), today)),
    {
        let ghost words = texts(args@);
        if args.len() == 1 {
            return Ok(ProfileAction::Show);
        }
        if args.len() >= 2 {
            assert(words[1] == args@[1]@);
        }
        if args.len() == 2 && same_text(args[1].as_str(), "show") {
            return Ok(ProfileAction::Show);
        }
        if !(args.len() >= 2 && same_text(args[1].as_str(), "update")) {
            return Err(
                "用法: profile show | profile update [--email <email>] [--gender <gender>] [--birthday <YYYY-MM-DD>]".to_owned(),
            );
        }
        let mut email: Option<String> = None;
        let mut gender: Option<String> = None;
        let mut birthday: Option<i32> = None;
        let ghost none = ProfileUpdateView { email: None, gender: None, birthday: None };
        let mut i: usize = 2;
        while i < args.len()
            invariant
                2 <= i,
                words == texts(args@),
                none == (ProfileUpdateView { email: None, gender: None, birthday: None }),
                args@.len() >= 2,
                words[1] == "update"@,
                !(args@.len() == 2 && words[1] == "show"@),
                profile_options(words, 2, none, today) == profile_options(
                    words,
                    i as int,
                    ProfileUpdateView { email: text_of(email), gender: text_of(gender), birthday },
                    today,
                ),
            decreases args.len() + 2 - i,
        {
            assert(words[i as int] == args@[i as int]@);
            if i + 1 < args.len() {
                assert(words[i + 1] == args@[i + 1]@);
            }
            let word = args[i].as_str();
            if same_text(word, "--email") {
                if i + 1 >= args.len() {
                    return Err("请提供邮箱地址".to_owned());
                }
                let value = args[i + 1].as_str();
                let verdict = regex_match(
                    "^[a-zA-Z0-9._%+-]+@[a-zA-Z0-9.-]+\\.[a-zA-Z]{2,}$",
                    value,
                );
                let matched = match verdict {
                    Some(m) => m,
                    None => false,
                };
                if !matched {
                    return Err("邮箱格式不正确".to_owned());
                }
                email = Some(args[i + 1].clone());
                i += 2;
            } else if same_text(word, "--gender") {
                if i + 1 >= args.len() {
                    return Err("请提供性别".to_owned());
                }
                let value = args[i + 1].as_str();
                if !(same_text(value, "male") || same_text(value, "female") || same_text(
                    value,
                    "other",
                )) {
                    return Err("性别必须是 male、female 或 other".to_owned());
                }
                gender = Some(args[i + 1].clone());
                i += 2;
            } else if same_text(word, "--birthday") {
                if i + 1 >= args.len() {
                    return Err("请提供生日".to_owned());
                }
                match parse_date(args[i + 1].as_str(), "%Y-%m-%d") {
                    Some(day) => {
                        if day > today {
                            return Err("生日不能是未来日期".to_owned());
                        }
                        birthday = Some(day);
                    },
                    None => {
                        return Err("生日格式不正确，请使用 YYYY-MM-DD 格式".to_owned());
                    },
                }
                i += 2;
            } else {
                let mut complaint = "未知参数: ".to_owned();
                complaint.append(word);
                return Err(complaint);
            }
        }
        Ok(ProfileAction::Update(ProfileUpdate { email, gender, birthday }))
    }
}

} // verus!
