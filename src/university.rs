//! A small roster of students, and which class year has the most students
//! above the average grade point.
//!
//! Grade points are kept in tenths (3.9 is 39), so that averages compare
//! exactly: a student is above the average of `count` students whose points
//! sum to `total` exactly when `gpa * count > total`.

use vstd::prelude::*;

verus! {

#[derive(Clone, Copy, Debug, PartialEq, Eq, Structural)]
pub enum ClassYear {
    Senior,
    Junior,
    Sophomore,
    FirstYear,
}

#[derive(Clone, Copy, Debug)]
pub struct Student {
    pub name: &'static str,
    pub class_year: ClassYear,
    /// Grade point average, in tenths.
    pub gpa_tenths: u32,
}

/// The class years and grade points (in tenths) of the roster, in order.
pub open spec fn roster() -> Seq<(ClassYear, u32)> {
    seq![
        (ClassYear::Senior, 39u32),
        (ClassYear::Sophomore, 23u32),
        (ClassYear::Junior, 39u32),
        (ClassYear::Senior, 31u32),
        (ClassYear::Senior, 0u32),
        (ClassYear::FirstYear, 40u32),
        (ClassYear::FirstYear, 40u32),
        (ClassYear::Junior, 36u32),
    ]
}

pub open spec fn records(v: Seq<Student>) -> Seq<(ClassYear, u32)> {
    v.map_values(|s: Student| (s.class_year, s.gpa_tenths))
}

/// The students of the roster.
pub fn olin_students() -> (r: Vec<Student>)
    ensures
        records(r@) == roster(),
{
    let r = vec![
        Student { name: "Alice", class_year: ClassYear::Senior, gpa_tenths: 39 },
        Student { name: "Foo", class_year: ClassYear::Sophomore, gpa_tenths: 23 },
        Student { name: "Bar", class_year: ClassYear::Junior, gpa_tenths: 39 },
        Student { name: "Ralph", class_year: ClassYear::Senior, gpa_tenths: 31 },
        Student { name: "Ayush", class_year: ClassYear::Senior, gpa_tenths: 0 },
        Student { name: "Anna", class_year: ClassYear::FirstYear, gpa_tenths: 40 },
        Student { name: "Hannah", class_year: ClassYear::FirstYear, gpa_tenths: 40 },
        Student { name: "Lorin", class_year: ClassYear::Junior, gpa_tenths: 36 },
    ];
    assert(records(r@) =~= roster());
    r
}

/// The sum of grade points and the number of the students of `s` that count
/// towards the average: all but first years.
pub open spec fn counted(s: Seq<(ClassYear, u32)>) -> (int, int)
    decreases s.len(),
{
    if s.len() == 0 {
        (0, 0)
    } else {
        let (total, count) = counted(s.drop_last());
        if s.last().0 != ClassYear::FirstYear {
            (total + s.last().1, count + 1)
        } else {
            (total, count)
        }
    }
}

/// How many students of `s` are in `class_year` and strictly above the
/// average of `total` over `count`.
pub open spec fn excelling(s: Seq<(ClassYear, u32)>, class_year: ClassYear, total: int, count: int) -> int
    decreases s.len(),
{
    if s.len() == 0 {
        0
    } else {
        excelling(s.drop_last(), class_year, total, count) + if s.last().0 == class_year && s.last().1
            * count > total {
            1int
        } else {
            0int
        }
    }
}

/// The number of excelling students of `class_year` in the roster.
pub open spec fn excel_count(class_year: ClassYear) -> int {
    excelling(roster(), class_year, counted(roster()).0, counted(roster()).1)
}

proof fn lemma_counted_bounds(s: Seq<(ClassYear, u32)>)
    ensures
        0 <= counted(s).1 <= s.len(),
        0 <= counted(s).0 <= counted(s).1 * u32::MAX,
    decreases s.len(),
{
    if s.len() > 0 {
        lemma_counted_bounds(s.drop_last());
    }
}

proof fn lemma_excelling_bounds(s: Seq<(ClassYear, u32)>, c: ClassYear, total: int, count: int)
    ensures
        0 <= excelling(s, c, total, count) <= s.len(),
    decreases s.len(),
{
    if s.len() > 0 {
        lemma_excelling_bounds(s.drop_last(), c, total, count);
    }
}

/// The sum of grade points (in tenths) of the students that count towards
/// the average, and how many they are.
pub fn average_gpa_parts(students: &Vec<Student>) -> (r: (u64, u64))
    requires
        students@.len() <= u32::MAX,
    ensures
        r.0 as int == counted(records(students@)).0,
        r.1 as int == counted(records(students@)).1,
{
    let mut total: u64 = 0;
    let mut count: u64 = 0;
    let mut i: usize = 0;
    while i < students.len()
        invariant
            i <= students@.len() <= u32::MAX,
            total as int == counted(records(students@).subrange(0, i as int)).0,
            count as int == counted(records(students@).subrange(0, i as int)).1,
        decreases students@.len() - i,
    {
        let ghost pre = records(students@).subrange(0, i as int);
        proof {
            assert(records(students@).subrange(0, i + 1).drop_last() =~= pre);
            lemma_counted_bounds(pre);
            assert(counted(pre).1 * u32::MAX <= u32::MAX * u32::MAX) by (nonlinear_arith)
                requires counted(pre).1 <= u32::MAX;
        }
        let s = students[i];
        if s.class_year != ClassYear::FirstYear {
            total = total + s.gpa_tenths as u64;
            count = count + 1;
        }
        i = i + 1;
    }
    assert(records(students@).subrange(0, students@.len() as int) =~= records(students@));
    (total, count)
}

/// How many students of `class_year` have a grade point above the average of
/// all students but first years.
pub fn get_num_excel_students_for_class(class_year: ClassYear) -> (r: u32)
    ensures
        r == excel_count(class_year),
{
    let students = olin_students();
    let (total, count) = average_gpa_parts(&students);
    proof {
        lemma_counted_bounds(roster());
    }
    let mut n: u32 = 0;
    let mut i: usize = 0;
    while i < students.len()
        invariant
            i <= students@.len() == 8,
            records(students@) == roster(),
            total as int == counted(roster()).0,
            count as int == counted(roster()).1,
            count <= 8,
            n as int == excelling(records(students@).subrange(0, i as int), class_year, total as int, count as int),
        decreases students@.len() - i,
    {
        let ghost pre = records(students@).subrange(0, i as int);
        proof {
            assert(records(students@).subrange(0, i + 1).drop_last() =~= pre);
            lemma_excelling_bounds(pre, class_year, total as int, count as int);
            assert(students@[i as int].gpa_tenths * count <= u32::MAX * 8) by (nonlinear_arith)
                requires count <= 8;
        }
        let s = students[i];
        if s.class_year == class_year && (s.gpa_tenths as u64) * count > total {
            n = n + 1;
        }
        i = i + 1;
    }
    assert(records(students@).subrange(0, 8) =~= roster());
    n
}

/// The class year with the most excelling students: sophomores only when they
/// beat both others, then juniors when they beat seniors, seniors otherwise.
pub open spec fn best_of(senior: int, junior: int, sophomore: int) -> ClassYear {
    if sophomore > junior && sophomore > senior {
        ClassYear::Sophomore
    } else if junior > senior {
        ClassYear::Junior
    } else {
        ClassYear::Senior
    }
}

/// The class year with the most excelling students.
pub fn get_best_class() -> (r: ClassYear)
    ensures
        r == best_of(
            excel_count(ClassYear::Senior),
            excel_count(ClassYear::Junior),
            excel_count(ClassYear::Sophomore),
        ),
{
    let senior_students = get_num_excel_students_for_class(ClassYear::Senior);
    let junior_students = get_num_excel_students_for_class(ClassYear::Junior);
    let sophomore_students = get_num_excel_students_for_class(ClassYear::Sophomore);
    if sophomore_students > junior_students && sophomore_students > senior_students {
        ClassYear::Sophomore
    } else if junior_students > senior_students {
        ClassYear::Junior
    } else {
        ClassYear::Senior
    }
}

} // verus!
