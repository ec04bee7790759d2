use rgrep::university::{
    average_gpa_parts, get_best_class, get_num_excel_students_for_class, olin_students, ClassYear,
};

#[test]
fn test_get_num_excel_students_for_class() {
    assert_eq!(get_num_excel_students_for_class(ClassYear::Sophomore), 0);
    assert_eq!(get_num_excel_students_for_class(ClassYear::Junior), 2);
    assert_eq!(get_num_excel_students_for_class(ClassYear::Senior), 2);
}

#[test]
fn test_get_best_class() {
    assert_eq!(get_best_class(), ClassYear::Senior);
}

#[test]
fn average_counts_all_but_first_years() {
    let students = olin_students();
    assert_eq!(students.len(), 8);
    assert_eq!(average_gpa_parts(&students), (168, 6));
    assert_eq!(get_num_excel_students_for_class(ClassYear::FirstYear), 2);
}
